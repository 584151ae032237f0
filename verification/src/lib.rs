//! Joins named audio clips into one WAV file.
//!
//! Each clip is a WAV or an MP3 file in one directory. The clips are decoded,
//! reduced to one channel, brought to one common sample rate, and put end to
//! end in the order in which they were named.
//!
//! - `resolve` finds the file behind each name.
//! - `audio` reduces an interleaved stream to mono.
//! - `join` leads through the join, stage by stage. The codecs stay with the
//!   caller: the join says what is to be decoded, resampled or written, and
//!   takes what came of it.
//! - `error` holds the failures, and what is said of each.

pub mod audio;
pub mod error;
pub mod join;
pub mod resolve;
pub mod text;

pub use crate::audio::{convert_to_mono_channel, Sample};
pub use crate::error::{Error, SBResult};
pub use crate::join::{decode_samples, join_files, join_samples_to_new_wav};
pub use crate::resolve::{get_audio_file_paths, get_sample_paths};
