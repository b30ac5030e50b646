//! Why an extraction, or the decoding of one record, did not give a result.

use vstd::prelude::*;

verus! {

/// The areas of an archive that are found by their layout.
#[derive(Debug, Clone, Copy, PartialEq, Eq, Structural)]
pub enum Area {
    Messages,
    Servers,
    User,
    Analytics,
}

/// Why an extraction ended without a result.
#[derive(Debug)]
pub enum ExtractError {
    /// The layout of a required area is absent from the archive.
    MissingLayout(Area),
    /// The archive could not be opened, or a member could not be read.
    Io(String),
    /// An internal pattern was rejected by the pattern compiler.
    Pattern,
    /// A counter of the report cannot hold what the archive adds up to.
    Overflow,
    /// Cancellation was requested. This is no failure: there is no result.
    Cancelled,
}

/// Why content could not be decoded as JSON.
#[derive(Debug)]
pub enum ParseError {
    /// The content is empty once trimmed.
    Empty,
    /// The trimmed content starts with neither `{` nor `[`.
    InvalidFormat,
    /// Both decoders rejected the content; their diagnostics, fast decoder
    /// first.
    BothFailed { fast: String, strict: String },
}

impl Area {
    /// The area's name as messages spell it.
    pub open spec fn label(self) -> Seq<char> {
        match self {
            Area::Messages => "Messages"@,
            Area::Servers => "Servers"@,
            Area::User => "User"@,
            Area::Analytics => "Analytics"@,
        }
    }

    /// The area's name as messages spell it.
    pub fn to_str(&self) -> (s: &'static str)
        ensures
            s@ == self.label(),
    {
        match self {
            Area::Messages => "Messages",
            Area::Servers => "Servers",
            Area::User => "User",
            Area::Analytics => "Analytics",
        }
    }
}

impl ExtractError {
    /// Whether this is a cancellation rather than a failure.
    pub open spec fn is_cancellation(&self) -> bool {
        self is Cancelled
    }

    /// The text of the error.
    pub open spec fn text(&self) -> Seq<char> {
        match self {
            ExtractError::MissingLayout(area) => "Could not find "@ + area.label()
                + " folder structure"@,
            ExtractError::Io(detail) => detail@,
            ExtractError::Pattern => "Invalid internal pattern"@,
            ExtractError::Overflow => "Counter limit exceeded"@,
            ExtractError::Cancelled => "Processing cancelled"@,
        }
    }

    /// The text of the error, for a reader.
    pub fn message(&self) -> (s: String)
        ensures
            s@ == self.text(),
    {
        match self {
            ExtractError::MissingLayout(area) => {
                let mut s = String::from_str("Could not find ");
                s.append(area.to_str());
                s.append(" folder structure");
                s
            },
            ExtractError::Io(detail) => detail.clone(),
            ExtractError::Pattern => String::from_str("Invalid internal pattern"),
            ExtractError::Overflow => String::from_str("Counter limit exceeded"),
            ExtractError::Cancelled => String::from_str("Processing cancelled"),
        }
    }

    /// Whether cancellation, not a failure, ended the extraction.
    pub fn cancelled(&self) -> (b: bool)
        ensures
            b == self.is_cancellation(),
    {
        match self {
            ExtractError::Cancelled => true,
            _ => false,
        }
    }
}

impl ParseError {
    /// The text of the error. When both decoders failed it carries both
    /// diagnostics.
    pub open spec fn text(&self) -> Seq<char> {
        match self {
            ParseError::Empty => "Empty JSON content"@,
            ParseError::InvalidFormat => "Invalid JSON format - doesn't start with { or ["@,
            ParseError::BothFailed { fast, strict } => "Both JSON parsers failed. simd_json: "@
                + fast@ + "; serde_json: "@ + strict@,
        }
    }

    /// The text of the error, for a reader.
    pub fn message(&self) -> (s: String)
        ensures
            s@ == self.text(),
    {
        match self {
            ParseError::Empty => String::from_str("Empty JSON content"),
            ParseError::InvalidFormat => String::from_str(
                "Invalid JSON format - doesn't start with { or [",
            ),
            ParseError::BothFailed { fast, strict } => {
                let mut s = String::from_str("Both JSON parsers failed. simd_json: ");
                s.append(fast.as_str());
                s.append("; serde_json: ");
                s.append(strict.as_str());
                s
            },
        }
    }
}

} // verus!
