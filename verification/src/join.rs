//! The join: every source decoded, reduced to mono, brought to one common
//! rate, and the results put end to end in the order of the sources.
//!
//! Decoding, resampling and encoding are the caller's work: it has the
//! codecs. What is decided here is what is to be done next, and what becomes
//! of each outcome. A join is therefore a chain of stages. Each stage says
//! what it waits for, takes the outcome, and gives the stage that follows:
//!
//! - `Decoding` waits for one source file to be decoded;
//! - `Resampling` waits for one mono stream to be resampled;
//! - `Writing` waits for the joined stream to be written.
//!
//! A stream that is at the rate of the join already is not resampled: it
//! joins as it is, sample for sample. Neither is an empty stream. Any other
//! stream goes to the resampler with its two leading samples apart, as the
//! pair between which the interpolation starts; a stream of one sample
//! starts with that sample twice.

use vstd::prelude::*;

use crate::audio::{
    convert_to_mono_channel, is_downmix, lemma_mono_is_unchanged, whole_frames, Sample,
};
use crate::error::Error;
use crate::resolve::{
    candidate, candidate_path, get_audio_file_paths, lemma_wav_is_preferred, resolves_to, Format,
    Presence,
};
use creak::DecoderError;
use hound::Error as EncoderError;

verus! {

/// The channel count and the sample rate of a decoded stream. There is at
/// least one channel, and the rate is above zero.
#[derive(Clone, Copy, Debug)]
pub struct StreamDescriptor {
    channel_count: u32,
    sample_rate: u32,
}

impl StreamDescriptor {
    #[verifier::type_invariant]
    spec fn valid(self) -> bool {
        self.channel_count >= 1 && self.sample_rate > 0
    }

    /// The number of channels: at least one.
    pub closed spec fn spec_channel_count(&self) -> u32 {
        self.channel_count
    }

    /// The number of frames per second: above zero.
    pub closed spec fn spec_sample_rate(&self) -> u32 {
        self.sample_rate
    }

    /// Describes a stream, if the numbers can describe one.
    pub fn new(channel_count: u32, sample_rate: u32) -> (descriptor: Option<StreamDescriptor>)
        ensures
            descriptor is Some <==> channel_count >= 1 && sample_rate > 0,
            descriptor matches Some(d) ==> d.spec_channel_count() == channel_count
                && d.spec_sample_rate() == sample_rate,
    {
        if channel_count >= 1 && sample_rate > 0 {
            Some(StreamDescriptor { channel_count, sample_rate })
        } else {
            None
        }
    }

    /// The number of channels: at least one.
    #[verifier::when_used_as_spec(spec_channel_count)]
    pub fn channel_count(&self) -> (count: u32)
        ensures
            count == self.spec_channel_count(),
            count >= 1,
    {
        proof {
            use_type_invariant(self);
        }
        self.channel_count
    }

    /// The number of frames per second: above zero.
    #[verifier::when_used_as_spec(spec_sample_rate)]
    pub fn sample_rate(&self) -> (rate: u32)
        ensures
            rate == self.spec_sample_rate(),
            rate > 0,
    {
        proof {
            use_type_invariant(self);
        }
        self.sample_rate
    }
}

/// A mono stream at `source_rate` that is to be brought to `target_rate` by
/// interpolation between successive samples: `left` and `right` are the
/// pair between which the interpolation starts, and `rest` is what follows
/// them in the stream.
#[derive(Debug)]
pub struct ResampleJob<T> {
    pub left: T,
    pub right: T,
    pub rest: Vec<T>,
    pub source_rate: u32,
    pub target_rate: u32,
}

impl<T> ResampleJob<T> {
    /// Whether the job holds the stream `mono`: its two leading samples as
    /// the pair to start with, and behind them the rest. A stream of one
    /// sample starts with that sample twice. The empty stream is not held
    /// by any job.
    pub open spec fn holds(self, mono: Seq<T>) -> bool {
        &&& mono.len() >= 1
        &&& self.left == mono[0]
        &&& self.right == if mono.len() >= 2 {
            mono[1]
        } else {
            mono[0]
        }
        &&& self.rest@ == if mono.len() >= 2 {
            mono.subrange(2, mono.len() as int)
        } else {
            Seq::empty()
        }
    }
}

/// What a decoded stream has come to, reduced to mono.
#[derive(Debug)]
pub enum Decoded<T> {
    /// The stream joins as it is: it is at the rate of the join, or empty.
    Ready(Vec<T>),
    /// The stream is to be resampled first.
    Resample(ResampleJob<T>),
}

/// Whether `r` is what the interleaved `samples` of the stream that
/// `stream` describes come to in a join at `target_rate`.
///
/// - A stream that does not consist of whole frames is refused.
/// - Else the stream is reduced to mono. At the rate of the join, or empty,
///   it is ready.
/// - Else it is to be resampled from its own rate to that of the join.
pub open spec fn decodes_to<T: Sample>(
    r: Result<Decoded<T>, Error>,
    stream: StreamDescriptor,
    samples: Seq<T>,
    target_rate: u32,
) -> bool {
    let channels = stream.channel_count() as nat;
    match r {
        Err(e) => !whole_frames(samples.len(), channels) && e == Error::ChannelCoversionError(
            stream.channel_count(),
            1,
        ),
        Ok(Decoded::Ready(mono)) => {
            &&& whole_frames(samples.len(), channels)
            &&& is_downmix(samples, channels, mono@)
            &&& stream.sample_rate() == target_rate || mono@.len() == 0
        },
        Ok(Decoded::Resample(job)) => {
            &&& whole_frames(samples.len(), channels)
            &&& stream.sample_rate() != target_rate
            &&& job.source_rate == stream.sample_rate()
            &&& job.target_rate == target_rate
            &&& exists|mono: Seq<T>|
                #![trigger is_downmix(samples, channels, mono)]
                #![trigger job.holds(mono)]
                is_downmix(samples, channels, mono) && job.holds(mono)
        },
    }
}

/// Takes what the decoder read from one source, the interleaved `samples`
/// of the stream that `stream` describes, and reduces it to mono. What is
/// left to do is to resample the mono stream to `target_sample_rate`, unless
/// it is at that rate already, or empty.
pub fn decode_samples<T: Sample>(
    stream: StreamDescriptor,
    samples: &[T],
    target_sample_rate: u32,
) -> (r: Result<Decoded<T>, Error>)
    ensures
        decodes_to(r, stream, samples@, target_sample_rate),
        r matches Ok(Decoded::Resample(job)) ==> job.source_rate > 0,
{
    match convert_to_mono_channel(samples, stream.channel_count()) {
        Ok(mono) => {
            let mut mono = mono;
            let ghost whole = mono@;
            let count = mono.len();
            if stream.sample_rate() == target_sample_rate || count == 0 {
                Ok(Decoded::Ready(mono))
            } else {
                let left = mono[0];
                let right = if count >= 2 {
                    mono[1]
                } else {
                    mono[0]
                };
                let rest = if count >= 2 {
                    mono.split_off(2)
                } else {
                    Vec::new()
                };
                let job = ResampleJob {
                    left,
                    right,
                    rest,
                    source_rate: stream.sample_rate(),
                    target_rate: target_sample_rate,
                };
                assert(is_downmix(samples@, stream.channel_count() as nat, whole));
                assert(job.holds(whole));
                Ok(Decoded::Resample(job))
            }
        },
        Err(e) => Err(e),
    }
}

/// How the samples of the output file are stored.
#[derive(Clone, Copy, Debug, PartialEq, Eq, Structural)]
pub enum SampleFormat {
    Float,
    Int,
}

/// The format of the output file.
#[derive(Clone, Copy, Debug, PartialEq, Eq, Structural)]
pub struct OutputSpec {
    pub channels: u16,
    pub sample_rate: u32,
    pub bits_per_sample: u16,
    pub sample_format: SampleFormat,
}

impl OutputSpec {
    /// One channel of 32-bit floating-point samples at `sample_rate`.
    pub open spec fn spec_mono_float(sample_rate: u32) -> OutputSpec {
        OutputSpec {
            channels: 1,
            sample_rate,
            bits_per_sample: 32,
            sample_format: SampleFormat::Float,
        }
    }

    /// One channel of 32-bit floating-point samples at `sample_rate`.
    #[verifier::when_used_as_spec(spec_mono_float)]
    pub fn mono_float(sample_rate: u32) -> (spec: OutputSpec)
        ensures
            spec == OutputSpec::spec_mono_float(sample_rate),
    {
        OutputSpec {
            channels: 1,
            sample_rate,
            bits_per_sample: 32,
            sample_format: SampleFormat::Float,
        }
    }
}

/// How far a join has come.
pub struct JoinView<T> {
    /// The path of every source, in the order in which they are joined.
    pub sources: Seq<Seq<char>>,
    /// The number of sources that are joined already.
    pub position: nat,
    /// The sample rate of the joined stream.
    pub target_rate: u32,
    /// The joined stream so far.
    pub audio: Seq<T>,
    /// The path of the file to write the joined stream to, if any.
    pub output: Option<Seq<char>>,
}

impl<T> JoinView<T> {
    /// A join of `sources` of which nothing is done yet.
    pub open spec fn start(
        sources: Seq<Seq<char>>,
        target_rate: u32,
        output: Option<Seq<char>>,
    ) -> JoinView<T> {
        JoinView { sources, position: 0, target_rate, audio: Seq::empty(), output }
    }

    /// The join after its next source has come to `stream`: the stream is
    /// put at the end of what is joined already.
    pub open spec fn joined(self, stream: Seq<T>) -> JoinView<T> {
        JoinView { position: self.position + 1, audio: self.audio + stream, ..self }
    }

    /// The join after its next sources have come to `streams`, one after
    /// the other.
    pub open spec fn joined_all(self, streams: Seq<Seq<T>>) -> JoinView<T>
        decreases streams.len(),
    {
        if streams.len() == 0 {
            self
        } else {
            self.joined_all(streams.drop_last()).joined(streams.last())
        }
    }
}

/// The part of a join that every stage before the writing holds.
struct Progress<T> {
    sources: Vec<String>,
    position: usize,
    target_rate: u32,
    audio: Vec<T>,
    output: Option<String>,
}

impl<T> Progress<T> {
    spec fn view(&self) -> JoinView<T> {
        JoinView {
            sources: self.sources.deep_view(),
            position: self.position as nat,
            target_rate: self.target_rate,
            audio: self.audio@,
            output: match self.output {
                Some(path) => Some(path@),
                None => None,
            },
        }
    }
}

/// A join that waits for its next source to be decoded.
pub struct Decoding<T> {
    progress: Progress<T>,
}

/// A join that waits for the mono stream of its next source to be resampled.
pub struct Resampling<T> {
    progress: Progress<T>,
    job: ResampleJob<T>,
}

/// A join that waits for its stream to be written: the file at `path` is to
/// be created as `spec` says, to be given `samples`, and to be finalized,
/// also where there are no samples.
pub struct Writing<T> {
    pub path: String,
    pub spec: OutputSpec,
    pub samples: Vec<T>,
}

/// What a join has come to.
pub enum Next<T> {
    /// A source is to be decoded.
    Decode(Decoding<T>),
    /// A mono stream is to be resampled.
    Resample(Resampling<T>),
    /// The joined stream is to be written.
    Write(Writing<T>),
    /// The join has ended: this is the joined stream.
    Joined(Vec<T>),
    /// The join has ended: the joined stream is written.
    Written,
    /// The join has ended in a failure.
    Failed(Error),
}

/// Whether `next` is what a join in which every source is joined comes to:
/// its stream is written where it has an output, and handed out where not.
pub open spec fn completes<T>(next: Next<T>, join: JoinView<T>) -> bool {
    match join.output {
        Some(path) => {
            &&& next matches Next::Write(writing)
            &&& writing.path@ == path
            &&& writing.spec == OutputSpec::spec_mono_float(join.target_rate)
            &&& writing.samples@ == join.audio
        },
        None => next matches Next::Joined(audio) && audio@ == join.audio,
    }
}

/// Whether `next` is what the join `join` comes to: the next source is
/// decoded while there is one, and then the join completes.
pub open spec fn continues<T>(next: Next<T>, join: JoinView<T>) -> bool {
    if join.position < join.sources.len() {
        next matches Next::Decode(decoding) && decoding@ == join
    } else {
        completes(next, join)
    }
}

/// Goes on with a join of which `progress` is done.
fn proceed<T>(progress: Progress<T>) -> (next: Next<T>)
    requires
        progress.position <= progress.sources@.len(),
    ensures
        continues(next, progress@),
{
    if progress.position < progress.sources.len() {
        Next::Decode(Decoding { progress })
    } else {
        match progress.output {
            Some(path) => Next::Write(
                Writing {
                    path,
                    spec: OutputSpec::mono_float(progress.target_rate),
                    samples: progress.audio,
                },
            ),
            None => Next::Joined(progress.audio),
        }
    }
}

impl<T> Decoding<T> {
    #[verifier::type_invariant]
    spec fn valid(self) -> bool {
        self.progress.position < self.progress.sources@.len() <= usize::MAX
    }

    /// How far the join has come.
    pub closed spec fn view(&self) -> JoinView<T> {
        self.progress@
    }

    /// The path of the source that is to be decoded.
    pub fn path(&self) -> (path: &str)
        ensures
            self@.position < self@.sources.len(),
            path@ == self@.sources[self@.position as int],
    {
        proof {
            use_type_invariant(self);
        }
        self.progress.sources[self.progress.position].as_str()
    }

    /// The source could not be decoded: the join fails with the decoder's
    /// error.
    pub fn failed(self, error: DecoderError) -> (next: Next<T>)
        ensures
            next == Next::<T>::Failed(Error::CreakErr(error)),
    {
        Next::Failed(Error::from(error))
    }
}

/// Whether `next` is what the join `join` comes to once its next source is
/// decoded as `decoded` says: a stream that is refused fails the join, a
/// stream that is ready is put at the end of what is joined already, and a
/// stream that is to be resampled leaves the join where it is until the
/// resampler has given it back.
pub open spec fn follows<T>(
    next: Next<T>,
    join: JoinView<T>,
    decoded: Result<Decoded<T>, Error>,
) -> bool {
    match decoded {
        Err(e) => next == Next::<T>::Failed(e),
        Ok(Decoded::Ready(mono)) => continues(next, join.joined(mono@)),
        Ok(Decoded::Resample(job)) => next matches Next::Resample(resampling) && resampling@
            == join && *resampling.job() == job,
    }
}

impl<T: Sample> Decoding<T> {
    /// The source is decoded: `samples` are the interleaved samples of the
    /// stream that `stream` describes. The join goes on as `follows` says
    /// for what `decode_samples` makes of them.
    pub fn decoded(self, stream: StreamDescriptor, samples: &[T]) -> (next: Next<T>)
        ensures
            exists|decoded: Result<Decoded<T>, Error>|
                decodes_to(decoded, stream, samples@, self@.target_rate) && #[trigger] follows(
                    next,
                    self@,
                    decoded,
                ),
    {
        proof {
            use_type_invariant(&self);
        }
        let decoded = decode_samples(stream, samples, self.progress.target_rate);
        let ghost outcome = decoded;
        let mut progress = self.progress;
        let next = match decoded {
            Ok(Decoded::Ready(mono)) => {
                let mut mono = mono;
                progress.audio.append(&mut mono);
                progress.position = progress.position + 1;
                proceed(progress)
            },
            Ok(Decoded::Resample(job)) => Next::Resample(Resampling { progress, job }),
            Err(e) => Next::Failed(e),
        };
        assert(follows(next, self@, outcome));
        next
    }
}

impl<T> Resampling<T> {
    #[verifier::type_invariant]
    spec fn valid(self) -> bool {
        &&& self.progress.position < self.progress.sources@.len() <= usize::MAX
        &&& self.job.source_rate > 0
        &&& self.job.target_rate == self.progress.target_rate
    }

    /// How far the join has come.
    pub closed spec fn view(&self) -> JoinView<T> {
        self.progress@
    }

    /// What is to be resampled, from which rate and to which.
    pub closed spec fn spec_job(&self) -> &ResampleJob<T> {
        &self.job
    }

    /// What is to be resampled, from which rate and to which. The rate of
    /// the stream is above zero, and the rate to reach is that of the join,
    /// as it was asked for: zero, which no stream can be brought to, is not
    /// ruled out.
    #[verifier::when_used_as_spec(spec_job)]
    pub fn job(&self) -> (job: &ResampleJob<T>)
        ensures
            job == self.spec_job(),
            job.source_rate > 0,
            job.target_rate == self@.target_rate,
    {
        proof {
            use_type_invariant(self);
        }
        &self.job
    }

    /// The mono stream is resampled: `samples` is the stream at the rate of
    /// the join. It is put at the end of what is joined already, and the
    /// join goes on with the source that follows, or completes.
    pub fn resampled(self, samples: Vec<T>) -> (next: Next<T>)
        ensures
            continues(next, self@.joined(samples@)),
    {
        proof {
            use_type_invariant(&self);
        }
        let mut progress = self.progress;
        let mut samples = samples;
        progress.audio.append(&mut samples);
        progress.position = progress.position + 1;
        proceed(progress)
    }
}

impl<T> Writing<T> {
    /// The stream is written and the file is finalized: the join has ended.
    pub fn written(self) -> (next: Next<T>)
        ensures
            next == Next::<T>::Written,
    {
        Next::Written
    }

    /// The file could not be created, written or finalized: the join fails
    /// with the encoder's error.
    pub fn failed(self, error: EncoderError) -> (next: Next<T>)
        ensures
            next == Next::<T>::Failed(Error::HoundErr(error)),
    {
        Next::Failed(Error::from(error))
    }
}

/// Starts the join of the files at `paths`, in that order, into one mono
/// stream at `target_sample_rate`. The join ends with the joined stream, or
/// with the first failure.
pub fn join_files<T>(paths: Vec<String>, target_sample_rate: u32) -> (next: Next<T>)
    ensures
        continues(next, JoinView::<T>::start(paths.deep_view(), target_sample_rate, None)),
{
    proceed(
        Progress {
            sources: paths,
            position: 0,
            target_rate: target_sample_rate,
            audio: Vec::new(),
            output: None,
        },
    )
}

/// Whether `next` is the start of a join into the file at `output`, given
/// what the resolution of the sample names came to: with the paths that it
/// found the join starts at the first of them, and its failure fails the
/// join.
pub open spec fn starts<T>(
    next: Next<T>,
    resolved: Result<Vec<String>, Error>,
    target_rate: u32,
    output: Seq<char>,
) -> bool {
    match resolved {
        Ok(paths) => continues(
            next,
            JoinView::<T>::start(paths.deep_view(), target_rate, Some(output)),
        ),
        Err(e) => next == Next::<T>::Failed(e),
    }
}

/// Starts a join into the file at `output`, given what the resolution of
/// the sample names came to.
pub fn start_join<T>(
    resolved: Result<Vec<String>, Error>,
    target_rate: u32,
    output: String,
) -> (next: Next<T>)
    ensures
        starts(next, resolved, target_rate, output@),
{
    match resolved {
        Ok(paths) => proceed(
            Progress {
                sources: paths,
                position: 0,
                target_rate,
                audio: Vec::new(),
                output: Some(output),
            },
        ),
        Err(e) => Next::Failed(e),
    }
}

/// Starts the join of the samples `sample_names` of `directory` into the
/// new file `<directory>/<name>.wav`: one channel of 32-bit floating-point
/// samples at `sample_rate`.
///
/// The names are resolved on the filesystem first, and the join starts as
/// `start_join` says for what the resolution came to. An empty list of
/// names fails the join before anything is looked up.
pub fn join_samples_to_new_wav<T>(
    name: &str,
    directory: &str,
    sample_names: &[&str],
    sample_rate: u32,
) -> (next: Next<T>)
    ensures
        exists|found: bool, presence: Seq<Presence>, resolved: Result<Vec<String>, Error>|
            #![trigger resolves_to(resolved, directory@, sample_names.deep_view(), found, presence)]
            resolves_to(resolved, directory@, sample_names.deep_view(), found, presence)
                && starts(next, resolved, sample_rate, candidate(directory@, name@, Format::Wav)),
        sample_names@.len() == 0 <==> next == Next::<T>::Failed(Error::NoSamples),
{
    let resolved = get_audio_file_paths(directory, sample_names);
    let output = candidate_path(directory, name, Format::Wav);
    start_join(resolved, sample_rate, output)
}

/// A stream at the rate of the join is not resampled: it joins as its
/// reduction to mono, with as many samples as the stream has frames.
pub proof fn lemma_same_rate_is_not_resampled<T: Sample>(
    next: Next<T>,
    join: JoinView<T>,
    decoded: Result<Decoded<T>, Error>,
    stream: StreamDescriptor,
    samples: Seq<T>,
)
    requires
        stream.sample_rate() == join.target_rate,
        whole_frames(samples.len(), stream.channel_count() as nat),
        decodes_to(decoded, stream, samples, join.target_rate),
        follows(next, join, decoded),
    ensures
        decoded matches Ok(Decoded::Ready(mono)) && is_downmix(
            samples,
            stream.channel_count() as nat,
            mono@,
        ) && continues(next, join.joined(mono@)),
{
}

/// A stream of one channel at the rate of the join joins unchanged: the
/// same samples, in the same number.
pub proof fn lemma_same_rate_mono_joins_unchanged<T: Sample>(
    next: Next<T>,
    join: JoinView<T>,
    decoded: Result<Decoded<T>, Error>,
    stream: StreamDescriptor,
    samples: Seq<T>,
)
    requires
        stream.channel_count() == 1,
        stream.sample_rate() == join.target_rate,
        decodes_to(decoded, stream, samples, join.target_rate),
        follows(next, join, decoded),
    ensures
        continues(next, join.joined(samples)),
{
    assert(samples.len() % 1 == 0);
    lemma_same_rate_is_not_resampled(next, join, decoded, stream, samples);
    let mono = decoded->Ok_0->Ready_0;
    lemma_mono_is_unchanged(samples, mono@);
}

/// A join of no samples fails with `NoSamples`, whatever the filesystem
/// holds.
pub proof fn lemma_no_samples_fail_the_join<T>(
    next: Next<T>,
    resolved: Result<Vec<String>, Error>,
    directory: Seq<char>,
    directory_found: bool,
    presence: Seq<Presence>,
    target_rate: u32,
    output: Seq<char>,
)
    requires
        resolves_to(resolved, directory, Seq::empty(), directory_found, presence),
        starts(next, resolved, target_rate, output),
    ensures
        next == Next::<T>::Failed(Error::NoSamples),
{
}

/// A join of samples of a directory that is not found fails with
/// `DirectoryNotFound`, which carries the directory that was asked for.
pub proof fn lemma_missing_directory_fails_the_join<T>(
    next: Next<T>,
    resolved: Result<Vec<String>, Error>,
    directory: Seq<char>,
    names: Seq<Seq<char>>,
    presence: Seq<Presence>,
    target_rate: u32,
    output: Seq<char>,
)
    requires
        names.len() > 0,
        resolves_to(resolved, directory, names, false, presence),
        starts(next, resolved, target_rate, output),
    ensures
        next matches Next::Failed(Error::DirectoryNotFound(d)) && d@ == directory,
{
}

/// A join that starts takes every sample whose WAV file is there from the
/// WAV file, whether or not its MP3 file is there too.
pub proof fn lemma_join_prefers_wav<T>(
    next: Next<T>,
    resolved: Result<Vec<String>, Error>,
    directory: Seq<char>,
    names: Seq<Seq<char>>,
    directory_found: bool,
    presence: Seq<Presence>,
    target_rate: u32,
    output: Seq<char>,
    index: int,
)
    requires
        resolves_to(resolved, directory, names, directory_found, presence),
        starts(next, resolved, target_rate, output),
        resolved is Ok,
        0 <= index < names.len(),
        index < presence.len(),
        presence[index].wav,
    ensures
        next matches Next::Decode(decoding) && decoding@.sources.len() == names.len()
            && decoding@.sources[index] == candidate(directory, names[index], Format::Wav),
{
    lemma_wav_is_preferred(resolved, directory, names, directory_found, presence, index);
}

/// Streams that are joined one after the other end up end to end, in
/// order, behind what was joined before.
pub proof fn lemma_joined_all<T>(join: JoinView<T>, streams: Seq<Seq<T>>)
    ensures
        join.joined_all(streams).audio == join.audio + streams.flatten(),
        join.joined_all(streams).position == join.position + streams.len(),
        join.joined_all(streams).sources == join.sources,
        join.joined_all(streams).target_rate == join.target_rate,
        join.joined_all(streams).output == join.output,
    decreases streams.len(),
{
    if streams.len() == 0 {
        assert(streams.flatten() =~= Seq::<T>::empty());
        assert(join.audio + Seq::<T>::empty() =~= join.audio);
    } else {
        let before = streams.drop_last();
        lemma_joined_all(join, before);
        assert(streams =~= before.push(streams.last()));
        before.lemma_flatten_push(streams.last());
        assert(join.audio + (before.flatten() + streams.last()) =~= (join.audio
            + before.flatten()) + streams.last());
    }
}

/// Once every source of a join has come to its stream, the join completes
/// with these streams end to end, in the order of the sources.
pub proof fn lemma_all_sources_join_in_order<T>(
    sources: Seq<Seq<char>>,
    target_rate: u32,
    output: Option<Seq<char>>,
    streams: Seq<Seq<T>>,
    next: Next<T>,
)
    requires
        streams.len() == sources.len(),
        continues(next, JoinView::<T>::start(sources, target_rate, output).joined_all(streams)),
    ensures
        match next {
            Next::Write(writing) => output is Some && writing.samples@ == streams.flatten(),
            Next::Joined(audio) => output is None && audio@ == streams.flatten(),
            _ => false,
        },
{
    let start = JoinView::<T>::start(sources, target_rate, output);
    lemma_joined_all(start, streams);
    assert(Seq::<T>::empty() + streams.flatten() =~= streams.flatten());
}

/// Two sources of which the first comes to a stream of N samples and the
/// second to one of M are joined to a stream of N + M samples: the first N
/// are the first stream, the rest is the second, and with that stream the
/// join completes.
pub proof fn lemma_two_sources_join_in_order<T>(
    sources: Seq<Seq<char>>,
    target_rate: u32,
    output: Option<Seq<char>>,
    first: Seq<T>,
    second: Seq<T>,
    next: Next<T>,
)
    requires
        sources.len() == 2,
        continues(
            next,
            JoinView::<T>::start(sources, target_rate, output).joined(first).joined(second),
        ),
    ensures
        ({
            let joined = first + second;
            let end = joined.len() as int;
            let middle = first.len() as int;
            &&& match next {
                Next::Write(writing) => output is Some && writing.samples@ == joined,
                Next::Joined(audio) => output is None && audio@ == joined,
                _ => false,
            }
            &&& end == first.len() + second.len()
            &&& joined.subrange(0, middle) == first
            &&& joined.subrange(middle, end) == second
        }),
{
    let joined = first + second;
    assert(Seq::<T>::empty() + first =~= first);
    assert(joined.subrange(0, first.len() as int) =~= first);
    assert(joined.subrange(first.len() as int, joined.len() as int) =~= second);
}

} // verus!
