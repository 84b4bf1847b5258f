//! What can go wrong. No error of a statement ends the run: each is handed
//! to the caller to be reported, and the statement falls back on a default.
//! The two errors that no statement gives are those of the caller's own
//! work: a script that cannot be read, before anything is run, and a
//! concurrent block that did not end cleanly.

use vstd::prelude::*;
use vstd::string::StringExecFns;

verus! {

/// An error.
#[derive(Clone, Debug, PartialEq, Eq)]
pub enum Error {
    /// A declaration without exactly one `=`, or a definition that is none.
    MalformedDeclaration,
    /// A deletion of, or a reference to, a variable that the store lacks.
    UndefinedVariable(String),
    /// A call of a function that the table lacks.
    UndefinedFunction(String),
    /// The script file named could not be opened.
    UnreadableScript(String),
    /// A concurrent block did not end cleanly; the text says how.
    ThreadJoinFailure(String),
}

/// The model of an [`Error`].
pub enum ErrorView {
    MalformedDeclaration,
    UndefinedVariable(Seq<char>),
    UndefinedFunction(Seq<char>),
    UnreadableScript(Seq<char>),
    ThreadJoinFailure(Seq<char>),
}

impl View for Error {
    type V = ErrorView;

    open spec fn view(&self) -> ErrorView {
        match *self {
            Error::MalformedDeclaration => ErrorView::MalformedDeclaration,
            Error::UndefinedVariable(name) => ErrorView::UndefinedVariable(name@),
            Error::UndefinedFunction(name) => ErrorView::UndefinedFunction(name@),
            Error::UnreadableScript(path) => ErrorView::UnreadableScript(path@),
            Error::ThreadJoinFailure(cause) => ErrorView::ThreadJoinFailure(cause@),
        }
    }
}

impl DeepView for Error {
    type V = ErrorView;

    open spec fn deep_view(&self) -> ErrorView {
        self@
    }
}

/// The line that reports `error`.
pub open spec fn message_of(error: ErrorView) -> Seq<char> {
    match error {
        ErrorView::MalformedDeclaration => "Error: Invalid variable declaration format."@,
        ErrorView::UndefinedVariable(name) => "Error: Undefined variable "@ + name,
        ErrorView::UndefinedFunction(name) => "Error: Undefined function "@ + name,
        ErrorView::UnreadableScript(path) => "Error: Could not open file "@ + path,
        ErrorView::ThreadJoinFailure(cause) => "Error joining thread: "@ + cause,
    }
}

impl Error {
    /// The line that reports this error.
    pub fn message(&self) -> (r: String)
        ensures
            r@ == message_of(self@),
    {
        match self {
            Error::MalformedDeclaration => "Error: Invalid variable declaration format.".to_owned(),
            Error::UndefinedVariable(name) => "Error: Undefined variable ".to_owned().concat(
                name.as_str(),
            ),
            Error::UndefinedFunction(name) => "Error: Undefined function ".to_owned().concat(
                name.as_str(),
            ),
            Error::UnreadableScript(path) => "Error: Could not open file ".to_owned().concat(
                path.as_str(),
            ),
            Error::ThreadJoinFailure(cause) => "Error joining thread: ".to_owned().concat(
                cause.as_str(),
            ),
        }
    }
}

/// Appends an error to a log.
pub fn push_error(log: &mut Vec<Error>, error: Error)
    ensures
        final(log).deep_view() == old(log).deep_view().push(error@),
{
    log.push(error);
    assert(log.deep_view() =~= old(log).deep_view().push(error@));
}

} // verus!
