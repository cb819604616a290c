//! The single error type every conversion family returns, so the command
//! layer has one shape to turn into a user-facing message.
use crate::text::{chars_of, push_str, string_from_chars};
use vstd::prelude::*;

verus! {

/// `std::io::Error`, carried opaquely inside [`ConvertError::Io`].
#[verifier::external_type_specification]
#[verifier::external_body]
pub struct ExIoError(std::io::Error);

/// Why a conversion failed.
#[derive(Debug)]
pub enum ConvertError {
    /// No route from `from` to `to` exists in the format matrix.
    UnsupportedConversion {
        /// The source file's extension.
        from: String,
        /// The extension that was requested.
        to: String,
    },
    /// The route exists but this build/platform can't perform it (e.g. a
    /// required engine was not found).
    EngineUnavailable(String),
    /// The source path doesn't exist, isn't a file, or couldn't be read.
    InvalidSource(String),
    /// Reading or writing a file failed.
    Io(std::io::Error),
    /// The source file's bytes couldn't be decoded as its claimed format.
    Decode(String),
    /// Any other engine-specific failure, with a user-facing detail.
    Other(String),
}

/// The text `std::io::Error`'s `Display` gives for `e`. What it says
/// depends on the operating system's error strings, so nothing is stated
/// about it.
#[verifier::external_body]
pub(crate) fn io_error_text(e: &std::io::Error) -> String {
    e.to_string()
}

/// Whether `m` is the user-facing message of `e`: a fixed lead-in and the
/// error's detail. An I/O error's detail is the operating system's text,
/// of which only the lead-in is stated.
pub open spec fn is_message_of(e: ConvertError, m: Seq<char>) -> bool {
    match e {
        ConvertError::UnsupportedConversion { from, to } => m == "cannot convert ."@ + from@ + " to ."@ + to@,
        ConvertError::EngineUnavailable(d) => m == "conversion engine unavailable: "@ + d@,
        ConvertError::InvalidSource(d) => m == "invalid source file: "@ + d@,
        ConvertError::Io(_) => m.len() >= "file I/O error: "@.len() && m.take("file I/O error: "@.len() as int)
            == "file I/O error: "@,
        ConvertError::Decode(d) => m == "could not read source file: "@ + d@,
        ConvertError::Other(d) => m == d@,
    }
}

impl ConvertError {
    /// The user-facing message for this error.
    pub fn message(&self) -> (r: String)
        ensures
            is_message_of(*self, r@),
    {
        match self {
            ConvertError::UnsupportedConversion { from, to } => {
                let mut v = chars_of("cannot convert .");
                push_str(&mut v, from.as_str());
                push_str(&mut v, " to .");
                push_str(&mut v, to.as_str());
                string_from_chars(&v)
            },
            ConvertError::EngineUnavailable(d) => {
                let mut v = chars_of("conversion engine unavailable: ");
                push_str(&mut v, d.as_str());
                string_from_chars(&v)
            },
            ConvertError::InvalidSource(d) => {
                let mut v = chars_of("invalid source file: ");
                push_str(&mut v, d.as_str());
                string_from_chars(&v)
            },
            ConvertError::Io(e) => {
                let mut v = chars_of("file I/O error: ");
                let ghost head = v@;
                let detail = io_error_text(e);
                push_str(&mut v, detail.as_str());
                proof {
                    assert(v@.take(head.len() as int) =~= head);
                }
                string_from_chars(&v)
            },
            ConvertError::Decode(d) => {
                let mut v = chars_of("could not read source file: ");
                push_str(&mut v, d.as_str());
                string_from_chars(&v)
            },
            ConvertError::Other(d) => d.clone(),
        }
    }
}

impl From<std::io::Error> for ConvertError {
    fn from(error: std::io::Error) -> (r: Self) {
        ConvertError::Io(error)
    }
}

impl vstd::std_specs::convert::FromSpecImpl<std::io::Error> for ConvertError {
    open spec fn obeys_from_spec() -> bool {
        true
    }

    open spec fn from_spec(v: std::io::Error) -> Self {
        ConvertError::Io(v)
    }
}

} // verus!
