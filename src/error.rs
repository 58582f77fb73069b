use vstd::prelude::*;

verus! {

/// The ways in which assembling a request can fail before anything is sent.
#[derive(Debug, PartialEq, Eq)]
pub enum Error {
    /// A request item matched no separator, or escaped a character that needs no escape.
    MalformedRequestItem(String),
    /// JSON fields mixed with file fields, or JSON fields under form mode.
    IncompatibleBodyFields,
    /// Piped input and key/value body fields were both given.
    ConflictingBodySources,
    /// The URL could not be built from the input and the defaults.
    InvalidUrl(String),
}

} // verus!
