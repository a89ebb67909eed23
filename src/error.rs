use vstd::prelude::*;

use crate::strings::push_str;

verus! {

/// Errors raised while decoding a typed archive.
#[derive(Debug, Clone, Copy, PartialEq, Eq, Structural)]
pub enum DecodeError {
    /// The buffer ended before the value being read was complete.
    TruncatedInput,
    /// A class or value reference pointed past the end of its table.
    BadBackreference,
    /// The buffer does not start with the archive signature.
    NotThisFormat,
    /// A byte that has no meaning at its position.
    UnexpectedMarker,
    /// A string payload was not valid UTF-8.
    InvalidUtf8,
}

/// Errors raised while rebuilding rich text from decoded nodes.
#[derive(Debug, Clone, Copy, PartialEq, Eq, Structural)]
pub enum ReconstructError {
    /// An attribute range reaches past the end of the text.
    RangeOutOfBounds,
}

/// Errors raised by the legacy pattern decoder.
#[derive(Debug, Clone, Copy, PartialEq, Eq, Structural)]
pub enum StreamTypedError {
    NoStartPattern,
    NoEndPattern,
    InvalidPrefix,
    InvalidTimestamp,
}

impl StreamTypedError {
    /// A sentence describing the error.
    pub fn message(&self) -> (r: &'static str)
        ensures
            r@ == match self {
                StreamTypedError::NoStartPattern => "No start pattern found!"@,
                StreamTypedError::NoEndPattern => "No end pattern found!"@,
                StreamTypedError::InvalidPrefix => "Prefix length is not standard!"@,
                StreamTypedError::InvalidTimestamp => "Timestamp integer is not valid!"@,
            },
    {
        match self {
            StreamTypedError::NoStartPattern => "No start pattern found!",
            StreamTypedError::NoEndPattern => "No end pattern found!",
            StreamTypedError::InvalidPrefix => "Prefix length is not standard!",
            StreamTypedError::InvalidTimestamp => "Timestamp integer is not valid!",
        }
    }
}

/// Errors raised while reading a message.
#[derive(Debug, Clone, Copy, PartialEq, Eq, Structural)]
pub enum MessageError {
    /// Neither decoder recovered any text from the message body.
    NoText,
    /// The legacy decoder failed.
    StreamTypedParseError(StreamTypedError),
    /// A stored timestamp is outside the representable range.
    InvalidTimestamp(i64),
}

/// Errors raised while reading query context data.
#[derive(Debug, PartialEq, Eq)]
pub enum QueryContextError {
    /// A date that is not in `YYYY-MM-DD` form.
    InvalidDate(String),
}

impl QueryContextError {
    /// A sentence describing the error.
    pub fn message(&self) -> (r: String)
        ensures
            match self {
                QueryContextError::InvalidDate(d) => r@ == "Invalid date provided: "@ + d@
                    + "! Must be in format YYYY-MM-DD."@,
            },
    {
        match self {
            QueryContextError::InvalidDate(date) => {
                let mut s = String::new();
                push_str(&mut s, "Invalid date provided: ");
                push_str(&mut s, date.as_str());
                push_str(&mut s, "! Must be in format YYYY-MM-DD.");
                proof {
                    assert(s@ =~= "Invalid date provided: "@ + date@
                        + "! Must be in format YYYY-MM-DD."@);
                }
                s
            },
        }
    }
}

#[verifier::external_type_specification]
#[verifier::external_body]
pub struct ExIoError(std::io::Error);

/// Relies on `std::io::Error`'s `Display` implementation, for its description.
#[verifier::external_body]
fn io_error_text(e: &std::io::Error) -> String {
    format!("{e}")
}

/// Errors raised while reading attachment data.
#[derive(Debug)]
pub enum AttachmentError {
    /// No file at this path.
    FileNotFound(String),
    /// The file at this path could not be read, and why.
    Unreadable(String, std::io::Error),
}

impl AttachmentError {
    /// A sentence describing the error.
    pub fn message(&self) -> (r: String)
        ensures
            match self {
                AttachmentError::FileNotFound(p) => r@ == "File not found at location: "@ + p@,
                AttachmentError::Unreadable(p, _) => exists|why: Seq<char>|
                    r@ == "Unable to read file at "@ + p@ + ": "@ + why,
            },
    {
        match self {
            AttachmentError::FileNotFound(path) => {
                let mut s = String::new();
                push_str(&mut s, "File not found at location: ");
                push_str(&mut s, path.as_str());
                s
            },
            AttachmentError::Unreadable(path, why) => {
                let mut s = String::new();
                push_str(&mut s, "Unable to read file at ");
                push_str(&mut s, path.as_str());
                push_str(&mut s, ": ");
                let ghost before = s@;
                let w = io_error_text(why);
                push_str(&mut s, w.as_str());
                proof {
                    assert(s@ =~= "Unable to read file at "@ + path@ + ": "@ + w@);
                }
                s
            },
        }
    }
}

impl DecodeError {
    /// A sentence describing the error.
    pub fn message(&self) -> (r: &'static str)
        ensures
            r@ == match self {
                DecodeError::TruncatedInput => "The archive ends before the value being read."@,
                DecodeError::BadBackreference => "The archive refers to an undeclared class or value."@,
                DecodeError::NotThisFormat => "The data is not a typed archive."@,
                DecodeError::UnexpectedMarker => "The archive holds an unexpected marker."@,
                DecodeError::InvalidUtf8 => "The archive holds a string that is not UTF-8."@,
            },
    {
        match self {
            DecodeError::TruncatedInput => "The archive ends before the value being read.",
            DecodeError::BadBackreference => "The archive refers to an undeclared class or value.",
            DecodeError::NotThisFormat => "The data is not a typed archive.",
            DecodeError::UnexpectedMarker => "The archive holds an unexpected marker.",
            DecodeError::InvalidUtf8 => "The archive holds a string that is not UTF-8.",
        }
    }
}

} // verus!
