use vstd::prelude::*;

verus! {

/// Representation of MimeTypes.
#[derive(Debug, Clone, PartialEq, Eq)]
pub enum MimeType {
    /// A special "MimeType" that represents a redirection
    Redirect,
    LinkTarget,
    DeletedEntry,
    Type(String),
}

} // verus!
