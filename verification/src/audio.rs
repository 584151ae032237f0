//! Samples, and the reduction of an interleaved stream to one channel.

use vstd::prelude::*;
use vstd::slice::slice_to_vec;

use crate::error::Error;

verus! {

/// A single audio sample: something that has a silent value and can be mixed
/// with another sample of its kind.
///
/// Mixing is summation under the sample type's own policy for sums that
/// leave its range. The trait asks nothing of an implementation: what this
/// crate states of a stream of samples, it states in terms of what the
/// implementation's `silence` and `mix` themselves promise.
pub trait Sample: Copy {
    /// The silent sample.
    fn silence() -> Self;

    /// The mix of `self` with `other`.
    fn mix(&self, other: &Self) -> Self;
}

/// The sum of two 32-bit samples, held at the nearest bound where it would
/// leave the range.
pub open spec fn clipped_sum(a: i32, b: i32) -> i32 {
    if a + b > i32::MAX {
        i32::MAX
    } else if a + b < i32::MIN {
        i32::MIN
    } else {
        (a + b) as i32
    }
}

/// 32-bit integer samples: silence is zero, and mixing is addition that
/// clips at the bounds of the type.
impl Sample for i32 {
    fn silence() -> (s: i32)
        ensures
            s == 0,
    {
        0
    }

    fn mix(&self, other: &i32) -> (m: i32)
        ensures
            m == clipped_sum(*self, *other),
    {
        let sum: i64 = *self as i64 + *other as i64;
        if sum > i32::MAX as i64 {
            i32::MAX
        } else if sum < i32::MIN as i64 {
            i32::MIN
        } else {
            sum as i32
        }
    }
}

/// Whether `chain` holds the partial mixes of `frame`: it starts with
/// silence, and each further entry is the entry before it mixed with the
/// next channel, first channel first.
pub open spec fn is_mix_chain<T: Sample>(frame: Seq<T>, chain: Seq<T>) -> bool {
    &&& chain.len() == frame.len() + 1
    &&& call_ensures(T::silence, (), chain[0])
    &&& forall|channel: int|
        #![trigger frame[channel]]
        0 <= channel < frame.len() ==> call_ensures(
            T::mix,
            (&chain[channel], &frame[channel]),
            chain[channel + 1],
        )
}

/// Whether `mixed` is the channels of one frame mixed into a single sample:
/// silence, then each channel mixed in, first channel first.
pub open spec fn is_frame_mix<T: Sample>(frame: Seq<T>, mixed: T) -> bool {
    exists|chain: Seq<T>| #[trigger] is_mix_chain(frame, chain) && chain.last() == mixed
}

/// Whether a stream of `len` samples consists of whole frames of `channels`
/// samples each. Only the empty stream is made of frames of no channels.
pub open spec fn whole_frames(len: nat, channels: nat) -> bool {
    if channels == 0 {
        len == 0
    } else {
        len % channels == 0
    }
}

/// The number of frames in a stream of `len` samples.
pub open spec fn frame_count(len: nat, channels: nat) -> nat {
    if channels == 0 {
        0
    } else {
        len / channels
    }
}

/// Frame number `index` of an interleaved stream.
pub open spec fn frame_at<T>(signal: Seq<T>, channels: nat, index: int) -> Seq<T> {
    signal.subrange(index * channels, index * channels + channels)
}

/// Whether `mono` is the reduction of the interleaved stream `signal` to one
/// channel. A stream of one channel is passed through as it is. Of any
/// other stream there is one sample per frame, in order, each the mix of
/// its frame.
pub open spec fn is_downmix<T: Sample>(signal: Seq<T>, channels: nat, mono: Seq<T>) -> bool {
    if channels == 1 {
        mono == signal
    } else {
        &&& mono.len() == frame_count(signal.len(), channels)
        &&& forall|index: int|
            0 <= index < mono.len() ==> is_frame_mix(
                frame_at(signal, channels, index),
                #[trigger] mono[index],
            )
    }
}

/// Reducing a stream that already has one channel changes nothing: the
/// same samples, in the same number.
pub proof fn lemma_mono_is_unchanged<T: Sample>(signal: Seq<T>, mono: Seq<T>)
    requires
        is_downmix(signal, 1, mono),
    ensures
        mono == signal,
{
}

/// The empty stream consists of whole frames and reduces to the empty
/// stream, whatever the channel count.
pub proof fn lemma_empty_stays_empty<T: Sample>(channels: nat, mono: Seq<T>)
    ensures
        whole_frames(0, channels),
        is_downmix(Seq::<T>::empty(), channels, mono) <==> mono.len() == 0,
{
    if channels > 0 {
        assert(0nat % channels == 0) by (nonlinear_arith)
            requires
                channels > 0,
        ;
        assert(0nat / channels == 0) by (nonlinear_arith)
            requires
                channels > 0,
        ;
    }
    if channels == 1 && mono.len() == 0 {
        assert(mono =~= Seq::<T>::empty());
    }
}

/// A stream of more than one channel whose length is no multiple of the
/// channel count does not consist of whole frames.
pub proof fn lemma_dangling_frame_is_not_whole(len: nat, channels: nat)
    requires
        channels > 1,
        len % channels != 0,
    ensures
        !whole_frames(len, channels),
{
}

/// The channels of one frame of 32-bit samples, summed first to last with
/// clipping at each step.
pub open spec fn clipped_frame_sum(frame: Seq<i32>) -> i32
    decreases frame.len(),
{
    if frame.len() == 0 {
        0
    } else {
        clipped_sum(clipped_frame_sum(frame.drop_last()), frame.last())
    }
}

/// In a chain of partial mixes of 32-bit samples, each entry is the clipped
/// sum of the channels before it.
proof fn lemma_i32_mix_chain(frame: Seq<i32>, chain: Seq<i32>, channels: int)
    requires
        is_mix_chain(frame, chain),
        0 <= channels <= frame.len(),
    ensures
        chain[channels] == clipped_frame_sum(frame.take(channels)),
    decreases channels,
{
    if channels > 0 {
        lemma_i32_mix_chain(frame, chain, channels - 1);
        let prefix = frame.take(channels);
        assert(prefix.drop_last() =~= frame.take(channels - 1));
        assert(prefix.last() == frame[channels - 1]);
    }
}

/// A frame of 32-bit samples has one mix: its clipped sum.
pub proof fn lemma_i32_frame_mix(frame: Seq<i32>, mixed: i32)
    requires
        is_frame_mix(frame, mixed),
    ensures
        mixed == clipped_frame_sum(frame),
{
    let chain = choose|chain: Seq<i32>| #[trigger]
        is_mix_chain(frame, chain) && chain.last() == mixed;
    lemma_i32_mix_chain(frame, chain, frame.len() as int);
    assert(frame.take(frame.len() as int) =~= frame);
}

/// Reduces an interleaved stream of `input_channels` channels to mono by
/// mixing the channels of each frame. A stream of one channel is passed
/// through as it is.
///
/// A stream that does not consist of whole frames is refused: a dangling
/// partial frame is neither dropped nor padded.
pub fn convert_to_mono_channel<T: Sample>(signal: &[T], input_channels: u32) -> (r: Result<
    Vec<T>,
    Error,
>)
    ensures
        match r {
            Ok(mono) => whole_frames(signal@.len(), input_channels as nat) && is_downmix(
                signal@,
                input_channels as nat,
                mono@,
            ),
            Err(e) => !whole_frames(signal@.len(), input_channels as nat) && e
                == Error::ChannelCoversionError(input_channels, 1),
        },
        input_channels == 1 ==> (r matches Ok(mono) && mono@ == signal@),
        signal@.len() == 0 ==> (r matches Ok(mono) && mono@.len() == 0),
{
    let len = signal.len();
    let channels = input_channels as usize;
    if input_channels == 1 {
        assert(len % 1 == 0);
        return Ok(slice_to_vec(signal));
    }
    if input_channels == 0 {
        if len == 0 {
            return Ok(Vec::new());
        }
        return Err(Error::ChannelCoversionError(input_channels, 1));
    }
    if len % channels != 0 {
        assert(len != 0) by (nonlinear_arith)
            requires
                channels > 0,
                len % channels != 0,
        ;
        return Err(Error::ChannelCoversionError(input_channels, 1));
    }
    let frames = len / channels;
    proof {
        assert(len == frames * channels) by (nonlinear_arith)
            requires
                channels > 0,
                len % channels == 0,
                frames == len / channels,
        ;
    }
    let mut mono: Vec<T> = Vec::new();
    let mut frame: usize = 0;
    let mut start: usize = 0;
    while frame < frames
        invariant
            channels > 0,
            len == signal@.len(),
            len == frames * channels,
            frame <= frames,
            start == frame * channels,
            mono@.len() == frame,
            forall|i: int|
                0 <= i < frame ==> is_frame_mix(
                    frame_at(signal@, channels as nat, i),
                    #[trigger] mono@[i],
                ),
        decreases frames - frame,
    {
        proof {
            assert(start + channels <= len) by (nonlinear_arith)
                requires
                    start == frame * channels,
                    len == frames * channels,
                    frame < frames,
            ;
        }
        let mut mixed = T::silence();
        let ghost mut chain: Seq<T> = seq![mixed];
        let mut channel: usize = 0;
        while channel < channels
            invariant
                channel <= channels,
                start + channels <= len,
                len == signal@.len(),
                is_mix_chain(signal@.subrange(start as int, start + channel), chain),
                chain.last() == mixed,
            decreases channels - channel,
        {
            let ghost before = signal@.subrange(start as int, start + channel);
            let ghost after = signal@.subrange(start as int, start + channel + 1);
            let ghost partial = chain;
            mixed = mixed.mix(&signal[start + channel]);
            proof {
                chain = partial.push(mixed);
                assert forall|k: int| 0 <= k < after.len() implies call_ensures(
                    T::mix,
                    (&chain[k], &#[trigger] after[k]),
                    chain[k + 1],
                ) by {
                    if k < before.len() {
                        assert(before[k] == after[k]);
                    }
                }
            }
            channel += 1;
        }
        proof {
            assert(signal@.subrange(start as int, start + channels) == frame_at(
                signal@,
                channels as nat,
                frame as int,
            ));
            assert((frame + 1) * channels == start + channels) by (nonlinear_arith)
                requires
                    start == frame * channels,
            ;
        }
        mono.push(mixed);
        frame += 1;
        start += channels;
    }
    proof {
        assert(frames == len as nat / channels as nat);
        assert(is_downmix(signal@, channels as nat, mono@));
    }
    Ok(mono)
}

} // verus!
