use vstd::prelude::*;

verus! {

/// Why tag data could not be loaded.
#[derive(Debug, PartialEq, Eq)]
pub enum DataError {
    /// A source could not be read; carries a description of the failure.
    IoFailure(String),
    /// The document is not a single mapping of mappings with string keys.
    MalformedDocument,
    /// A key that must be a tag code is not one; carries the offending text.
    InvalidTag(String),
    /// A leaf value is not of the expected numeric kind.
    InvalidValueType,
}

impl DataError {
    /// A description of the failure: its kind, and the offending text where
    /// there is one.
    pub fn describe(&self) -> (r: String)
        ensures
            match self {
                DataError::IoFailure(what) => r@ == "source unreadable: "@ + what@,
                DataError::MalformedDocument => r@ == "malformed document"@,
                DataError::InvalidTag(code) => r@ == "Invalid tag: "@ + code@,
                DataError::InvalidValueType => r@ == "invalid value type"@,
            },
    {
        match self {
            DataError::IoFailure(what) => {
                let mut r = String::from_str("source unreadable: ");
                r.append(what.as_str());
                r
            },
            DataError::MalformedDocument => String::from_str("malformed document"),
            DataError::InvalidTag(code) => {
                let mut r = String::from_str("Invalid tag: ");
                r.append(code.as_str());
                r
            },
            DataError::InvalidValueType => String::from_str("invalid value type"),
        }
    }
}

} // verus!
