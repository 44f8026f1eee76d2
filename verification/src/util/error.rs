use vstd::prelude::*;

verus! {

/// The category of a failure, after the kinds of `std::io::Error` that the shell reports.
#[derive(Clone, Copy, Debug, PartialEq, Eq, Structural)]
pub enum ErrorKind {
    NotFound,
    InvalidInput,
    InvalidData,
    Interrupted,
    UnexpectedEof,
    Other,
}

/// A failure of the shell: its kind and the text that the user sees.
#[derive(Debug)]
pub struct ShellError {
    pub kind: ErrorKind,
    pub message: String,
}

impl ShellError {
    pub fn new(kind: ErrorKind, message: String) -> (e: Self)
        ensures
            e.kind == kind,
            e.message@ == message@,
    {
        ShellError { kind, message }
    }

    /// An error whose text is the literal `message`.
    pub fn from_text(kind: ErrorKind, message: &str) -> (e: Self)
        ensures
            e.kind == kind,
            e.message@ == message@,
    {
        ShellError { kind, message: String::from_str(message) }
    }

    pub fn kind(&self) -> (k: ErrorKind)
        ensures
            k == self.kind,
    {
        self.kind
    }

    /// The text of the error, as its `Display` would print it.
    pub fn message(&self) -> (s: String)
        ensures
            s@ == self.message@,
    {
        self.message.clone()
    }
}

} // verus!
