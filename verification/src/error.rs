//! The failures a conversion can end in.

use vstd::prelude::*;
use vstd::string::StringExecFns;

verus! {

/// Why a file, or a whole batch, could not be converted. Each variant carries
/// the text that describes the cause.
#[derive(Debug)]
pub enum ConverterError {
    /// Reading, writing, listing or creating something on disk failed.
    IoError(String),
    /// The WAV encoder refused or failed.
    WavError(String),
    /// An input was missing or unusable.
    InvalidData(String),
}

/// The error type of the `hound` crate. It is carried through unopened; only
/// its text is ever asked for.
#[verifier::external_type_specification]
#[verifier::external_body]
pub struct ExHoundError(hound::Error);

impl ConverterError {
    /// The text carried by the error, without the prefix that names its kind.
    pub open spec fn detail(self) -> Seq<char> {
        match self {
            ConverterError::IoError(text) => text@,
            ConverterError::WavError(text) => text@,
            ConverterError::InvalidData(text) => text@,
        }
    }

    /// The prefix that names the kind of the error in a message.
    pub open spec fn prefix(self) -> Seq<char> {
        match self {
            ConverterError::IoError(_) => "IO error: "@,
            ConverterError::WavError(_) => "WAV error: "@,
            ConverterError::InvalidData(_) => "Invalid data: "@,
        }
    }

    /// The message shown to a user: the kind, then the detail.
    pub open spec fn text(self) -> Seq<char> {
        self.prefix() + self.detail()
    }

    /// Renders the error as the message shown to a user.
    pub fn message(&self) -> (rendered: String)
        ensures
            rendered@ == self.text(),
    {
        match self {
            ConverterError::IoError(text) => String::from_str("IO error: ").concat(text.as_str()),
            ConverterError::WavError(text) => String::from_str("WAV error: ").concat(text.as_str()),
            ConverterError::InvalidData(text) => String::from_str("Invalid data: ").concat(
                text.as_str(),
            ),
        }
    }

    /// The detail alone, as an owned string.
    pub fn into_detail(self) -> (text: String)
        ensures
            text@ == self.detail(),
    {
        match self {
            ConverterError::IoError(text) => text,
            ConverterError::WavError(text) => text,
            ConverterError::InvalidData(text) => text,
        }
    }

    /// Wraps a failure reported by the WAV encoder.
    pub fn from_wav(cause: hound::Error) -> (error: ConverterError)
        ensures
            error is WavError,
    {
        ConverterError::from_wav_text(wav_error_text(&cause))
    }

    /// The error for a failure of the WAV encoder that describes itself as
    /// `text`: a `WavError` that carries exactly that text. This is what
    /// [`Self::from_wav`] returns once the encoder's error has given its text.
    pub fn from_wav_text(text: String) -> (error: ConverterError)
        ensures
            error == ConverterError::WavError(text),
            error.detail() == text@,
            error.text() == "WAV error: "@ + text@,
    {
        ConverterError::WavError(text)
    }
}

/// Asks a `hound::Error` for its `Display` text. Nothing is claimed of the
/// text.
#[verifier::external_body]
fn wav_error_text(cause: &hound::Error) -> String {
    cause.to_string()
}

} // verus!
