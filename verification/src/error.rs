//! Error types for diskclone.

use vstd::prelude::*;

verus! {

/// Errors that can occur during disk cloning. Each carries the text that
/// describes its cause.
#[derive(Debug)]
pub enum DiskCloneError {
    Io(String),
    Vss(String),
    Ssh(String),
    Other(String),
}

/// A [`DiskCloneError`] over the characters of its text.
pub enum ErrorView {
    Io(Seq<char>),
    Vss(Seq<char>),
    Ssh(Seq<char>),
    Other(Seq<char>),
}

impl View for DiskCloneError {
    type V = ErrorView;

    open spec fn view(&self) -> ErrorView {
        match self {
            DiskCloneError::Io(s) => ErrorView::Io(s@),
            DiskCloneError::Vss(s) => ErrorView::Vss(s@),
            DiskCloneError::Ssh(s) => ErrorView::Ssh(s@),
            DiskCloneError::Other(s) => ErrorView::Other(s@),
        }
    }
}

impl ErrorView {
    /// What a user is shown of the error.
    pub open spec fn text(self) -> Seq<char> {
        match self {
            ErrorView::Io(s) => "I/O error: "@ + s,
            ErrorView::Vss(s) => "VSS error: "@ + s,
            ErrorView::Ssh(s) => "SSH error: "@ + s,
            ErrorView::Other(s) => s,
        }
    }
}

impl DiskCloneError {
    /// What a user is shown of the error.
    pub fn message(&self) -> (r: String)
        ensures
            r@ == self@.text(),
    {
        let mut r = String::new();
        match self {
            DiskCloneError::Io(s) => {
                r.append("I/O error: ");
                r.append(s.as_str());
            },
            DiskCloneError::Vss(s) => {
                r.append("VSS error: ");
                r.append(s.as_str());
            },
            DiskCloneError::Ssh(s) => {
                r.append("SSH error: ");
                r.append(s.as_str());
            },
            DiskCloneError::Other(s) => {
                r.append(s.as_str());
            },
        }
        r
    }
}

} // verus!
