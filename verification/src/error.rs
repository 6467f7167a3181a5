//! Errors of the debate system.

use crate::text::{decimal, push_decimal};
use async_openai::error::OpenAIError;
use vstd::prelude::*;
use vstd::std_specs::convert::FromSpecImpl;
use vstd::string::StringExecFns;

verus! {

/// The error type of the completion client. Its content is not inspected
/// here: a value is carried from the client to the caller as it came.
#[verifier::external_type_specification]
#[verifier::external_body]
pub struct ExOpenAIError(OpenAIError);

/// Everything that can end a debate early.
#[derive(Debug)]
pub enum DebateError {
    /// The number of participants is outside the bounds of the format.
    InvalidParticipantCount { min: usize, max: usize, actual: usize },
    /// The completion endpoint failed, and retrying did not help.
    OpenAIError(OpenAIError),
    /// The setup is unusable, or a participant gave no usable answer.
    ConfigError(String),
    /// No format is registered under the given name.
    UnknownFormat(String),
    /// Speech synthesis failed.
    TtsError(String),
}

pub const COUNT_PREFIX: &'static str = "Invalid participant count: expected ";

pub const COUNT_RANGE: &'static str = "-";

pub const COUNT_ACTUAL: &'static str = ", got ";

pub const API_PREFIX: &'static str = "OpenAI API error: ";

pub const CONFIG_PREFIX: &'static str = "Configuration error: ";

pub const FORMAT_PREFIX: &'static str = "Unknown debate format: ";

pub const TTS_PREFIX: &'static str = "TTS error: ";

/// Renders the error of the completion client with its `Display`
/// implementation. Trusted; nothing is claimed of the text.
#[verifier::external_body]
fn describe_api_error(error: &OpenAIError) -> (text: String) {
    error.to_string()
}

impl DebateError {
    /// The message of a participant count outside `min..=max`.
    pub open spec fn count_message(min: usize, max: usize, actual: usize) -> Seq<char> {
        COUNT_PREFIX@ + decimal(min as nat) + COUNT_RANGE@ + decimal(max as nat) + COUNT_ACTUAL@
            + decimal(actual as nat)
    }

    /// Whether `text` is a message for this error. The text after the prefix
    /// of a completion-client error is the client's own.
    pub open spec fn has_message(self, text: Seq<char>) -> bool {
        match self {
            DebateError::InvalidParticipantCount { min, max, actual } => text
                == Self::count_message(min, max, actual),
            DebateError::OpenAIError(_) => API_PREFIX@.is_prefix_of(text),
            DebateError::ConfigError(detail) => text == CONFIG_PREFIX@ + detail@,
            DebateError::UnknownFormat(name) => text == FORMAT_PREFIX@ + name@,
            DebateError::TtsError(detail) => text == TTS_PREFIX@ + detail@,
        }
    }

    /// The message shown to a person.
    pub fn message(&self) -> (text: String)
        ensures
            self.has_message(text@),
    {
        match self {
            DebateError::InvalidParticipantCount { min, max, actual } => {
                let mut text = String::from_str(COUNT_PREFIX);
                push_decimal(&mut text, *min as u64);
                text.append(COUNT_RANGE);
                push_decimal(&mut text, *max as u64);
                text.append(COUNT_ACTUAL);
                push_decimal(&mut text, *actual as u64);
                text
            },
            DebateError::OpenAIError(error) => {
                let mut text = String::from_str(API_PREFIX);
                let detail = describe_api_error(error);
                text.append(detail.as_str());
                assert(API_PREFIX@.is_prefix_of(text@));
                text
            },
            DebateError::ConfigError(detail) => {
                let mut text = String::from_str(CONFIG_PREFIX);
                text.append(detail.as_str());
                text
            },
            DebateError::UnknownFormat(name) => {
                let mut text = String::from_str(FORMAT_PREFIX);
                text.append(name.as_str());
                text
            },
            DebateError::TtsError(detail) => {
                let mut text = String::from_str(TTS_PREFIX);
                text.append(detail.as_str());
                text
            },
        }
    }
}

impl From<OpenAIError> for DebateError {
    fn from(error: OpenAIError) -> (wrapped: Self) {
        DebateError::OpenAIError(error)
    }
}

impl FromSpecImpl<OpenAIError> for DebateError {
    open spec fn obeys_from_spec() -> bool {
        true
    }

    open spec fn from_spec(error: OpenAIError) -> Self {
        DebateError::OpenAIError(error)
    }
}

} // verus!
