//! Diagnostics: what went wrong, on which text, and where.
use vstd::prelude::*;

verus! {

/// A diagnostic seen as a value.
pub struct ErrorView {
    pub message: Seq<char>,
    pub data: Seq<char>,
    pub index: nat,
}

/// A syntax error: a message, the offending text (empty where there is none)
/// and the byte offset in the input at which that text starts (zero where it
/// is not known).
#[derive(Clone, Debug)]
pub struct Error {
    pub message: String,
    pub data: String,
    pub index: usize,
}

impl View for Error {
    type V = ErrorView;

    open spec fn view(&self) -> ErrorView {
        ErrorView { message: self.message@, data: self.data@, index: self.index as nat }
    }
}

impl Error {
    /// An error without a known position.
    pub fn new(message: &str, data: String) -> (e: Error)
        ensures
            e@ == (ErrorView { message: message@, data: data@, index: 0 }),
    {
        Error { message: message.to_owned(), data, index: 0 }
    }

    /// An error at the byte offset `index`.
    pub fn with_loc(message: &str, data: String, index: usize) -> (e: Error)
        ensures
            e@ == (ErrorView { message: message@, data: data@, index: index as nat }),
    {
        Error { message: message.to_owned(), data, index }
    }

    /// What went wrong.
    pub fn message(&self) -> (s: &str)
        ensures
            s@ == self@.message,
    {
        self.message.as_str()
    }

    /// The offending text.
    pub fn data(&self) -> (s: &str)
        ensures
            s@ == self@.data,
    {
        self.data.as_str()
    }

    /// The byte offset of the offending text.
    pub fn index(&self) -> (i: usize)
        ensures
            i == self@.index,
    {
        self.index
    }
}

/// The views of a sequence of errors.
pub open spec fn error_views(errors: Seq<Error>) -> Seq<ErrorView> {
    Seq::new(errors.len(), |i: int| errors[i]@)
}

/// The offending texts of a sequence of errors.
pub open spec fn error_texts(errors: Seq<ErrorView>) -> Seq<Seq<char>> {
    Seq::new(errors.len(), |i: int| errors[i].data)
}

/// Errors stand in source order: their offsets never decrease.
pub open spec fn in_source_order(errors: Seq<ErrorView>) -> bool {
    forall|i: int, j: int| 0 <= i <= j < errors.len() ==> errors[i].index <= errors[j].index
}

/// Every error points into the input or just past its end.
pub open spec fn within(errors: Seq<ErrorView>, limit: nat) -> bool {
    forall|i: int| 0 <= i < errors.len() ==> (#[trigger] errors[i]).index <= limit
}

} // verus!
