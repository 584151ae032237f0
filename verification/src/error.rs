//! The failures a join can end in, and what is said of each.

use vstd::prelude::*;
use vstd::std_specs::convert::FromSpecImpl;
use vstd::string::*;

use crate::text::{decimal, decimal_text, told};
use creak::DecoderError;
use hound::Error as EncoderError;

verus! {

/// `creak::DecoderError`, carried through unopened.
#[verifier::external_type_specification]
#[verifier::external_body]
pub struct ExDecoderError(DecoderError);

/// `hound::Error`, carried through unopened.
#[verifier::external_type_specification]
#[verifier::external_body]
pub struct ExEncoderError(EncoderError);

/// Why a join stopped. Every failure is final: nothing is retried.
#[derive(Debug)]
pub enum Error {
    /// Neither `<directory>/<name>.wav` nor `<directory>/<name>.mp3` is a
    /// regular file. Carries the directory and the name.
    FileNotFound(String, String),
    /// The sample directory is missing or is not a directory.
    DirectoryNotFound(String),
    /// The decoder rejected a source file.
    CreakErr(DecoderError),
    /// The encoder could not write the output file.
    HoundErr(EncoderError),
    /// The list of sample names was empty.
    NoSamples,
    /// A stream's length is no multiple of its channel count. Carries the
    /// source and the target channel count.
    ChannelCoversionError(u32, u32),
}

pub type SBResult<T = ()> = Result<T, Error>;

impl From<EncoderError> for Error {
    fn from(error: EncoderError) -> (e: Error) {
        Error::HoundErr(error)
    }
}

impl FromSpecImpl<EncoderError> for Error {
    open spec fn obeys_from_spec() -> bool {
        true
    }

    open spec fn from_spec(error: EncoderError) -> Error {
        Error::HoundErr(error)
    }
}

impl From<DecoderError> for Error {
    fn from(error: DecoderError) -> (e: Error) {
        Error::CreakErr(error)
    }
}

impl FromSpecImpl<DecoderError> for Error {
    open spec fn obeys_from_spec() -> bool {
        true
    }

    open spec fn from_spec(error: DecoderError) -> Error {
        Error::CreakErr(error)
    }
}

/// The decoder's own words for its error, by the `Display` impl of
/// `creak::DecoderError`. They may hold what the operating system said, so
/// nothing is claimed of them.
#[verifier::external_body]
fn decoder_error_text(error: &DecoderError) -> (text: String) {
    error.to_string()
}

/// The encoder's own words for its error, by the `Display` impl of
/// `hound::Error`. They may hold what the operating system said, so nothing
/// is claimed of them.
#[verifier::external_body]
fn encoder_error_text(error: &EncoderError) -> (text: String) {
    error.to_string()
}

impl Error {
    /// Whether `message` is what is said to the user of this failure, in a
    /// process that runs in `current_directory`.
    ///
    /// Each message names what the failure is about: the directory, the
    /// sample and its directory, or the two channel counts. A failure of a
    /// codec is told in the codec's own words, which `told` puts behind a
    /// fixed heading.
    pub open spec fn is_message(self, current_directory: Seq<char>, message: Seq<char>) -> bool {
        match self {
            Error::NoSamples => message == "No samples were input"@,
            Error::DirectoryNotFound(directory) => message == "Directory not found: "@
                + directory@ + "\nCurrent Directory: "@ + current_directory,
            Error::HoundErr(_) => exists|detail: Seq<char>|
                message == #[trigger] ("Encoding Error: "@ + detail),
            Error::FileNotFound(directory, name) => message
                == "Could not find mp3 or wav file named "@ + name@ + " in directory "@
                + directory@,
            Error::CreakErr(_) => exists|detail: Seq<char>|
                message == #[trigger] ("Decoding Error: "@ + detail),
            Error::ChannelCoversionError(source, target) => message
                == "Failed converting channel data from "@ + decimal(source as nat)
                + " channels to "@ + decimal(target as nat) + " channels"@,
        }
    }

    /// What is said to the user of this failure, in a process that runs in
    /// `current_directory`.
    pub fn message(&self, current_directory: &str) -> (message: String)
        ensures
            self.is_message(current_directory@, message@),
    {
        match self {
            Error::NoSamples => String::from_str("No samples were input"),
            Error::DirectoryNotFound(directory) => {
                let mut message = String::from_str("Directory not found: ");
                message.append(directory.as_str());
                message.append("\nCurrent Directory: ");
                message.append(current_directory);
                message
            },
            Error::HoundErr(error) => {
                let detail = encoder_error_text(error);
                told("Encoding Error: ", detail.as_str())
            },
            Error::FileNotFound(directory, name) => {
                let mut message = String::from_str("Could not find mp3 or wav file named ");
                message.append(name.as_str());
                message.append(" in directory ");
                message.append(directory.as_str());
                message
            },
            Error::CreakErr(error) => {
                let detail = decoder_error_text(error);
                told("Decoding Error: ", detail.as_str())
            },
            Error::ChannelCoversionError(source, target) => {
                let mut message = String::from_str("Failed converting channel data from ");
                message.append(decimal_text(*source).as_str());
                message.append(" channels to ");
                message.append(decimal_text(*target).as_str());
                message.append(" channels");
                message
            },
        }
    }
}

} // verus!
