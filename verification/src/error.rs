//! Error values carried through download aggregation: a kind plus a message,
//! mirroring operating-system style I/O diagnostics.
use vstd::prelude::*;

verus! {

/// The category of an I/O failure.
#[derive(Clone, Copy, Debug, PartialEq, Eq)]
pub enum IoKind {
    /// Input data did not have the expected shape (e.g. a bad URL template).
    InvalidData,
    /// An argument was unusable as given (e.g. a path with an interior NUL).
    InvalidInput,
    /// The named resource does not exist.
    NotFound,
    /// Any other failure, carrying its cause in the message.
    Other,
}

/// An I/O failure: a kind plus the underlying cause text.
#[derive(Clone, Debug, PartialEq, Eq)]
pub struct IoError {
    pub kind: IoKind,
    pub message: String,
}

/// Mathematical image of an [`IoError`]: the kind and the message characters.
pub struct IoErrorView {
    pub kind: IoKind,
    pub message: Seq<char>,
}

impl View for IoError {
    type V = IoErrorView;

    open spec fn view(&self) -> IoErrorView {
        IoErrorView { kind: self.kind, message: self.message@ }
    }
}

impl IoError {
    /// A fresh error equal to this one.
    pub fn duplicate(&self) -> (r: IoError)
        ensures
            r == *self,
    {
        IoError { kind: self.kind, message: self.message.clone() }
    }
}

} // verus!
