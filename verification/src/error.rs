//! Errors.

use vstd::prelude::*;

verus! {

/// What went wrong.
#[derive(Debug)]
pub enum GwsError {
    /// The request or an argument is not acceptable.
    Validation(String),
    /// A discovery document lacks something.
    Discovery(String),
    /// Anything else that the library refuses.
    Other(String),
    /// An error of a collaborator, in the words in which it prints itself.
    Service(String),
}

/// The mathematical content of a [`GwsError`].
#[verifier::ext_equal]
pub enum ErrorView {
    Validation(Seq<char>),
    Discovery(Seq<char>),
    Other(Seq<char>),
    Service(Seq<char>),
}

impl View for GwsError {
    type V = ErrorView;

    open spec fn view(&self) -> ErrorView {
        match *self {
            GwsError::Validation(m) => ErrorView::Validation(m@),
            GwsError::Discovery(m) => ErrorView::Discovery(m@),
            GwsError::Other(m) => ErrorView::Other(m@),
            GwsError::Service(m) => ErrorView::Service(m@),
        }
    }
}

impl ErrorView {
    /// The error in words.
    pub open spec fn message(self) -> Seq<char> {
        match self {
            ErrorView::Validation(m) => m,
            ErrorView::Discovery(m) => m,
            ErrorView::Other(m) => m,
            ErrorView::Service(m) => m,
        }
    }
}

impl GwsError {
    /// The error in words.
    pub fn message(&self) -> (r: &str)
        ensures
            r@ == self@.message(),
    {
        match self {
            GwsError::Validation(m) => m.as_str(),
            GwsError::Discovery(m) => m.as_str(),
            GwsError::Other(m) => m.as_str(),
            GwsError::Service(m) => m.as_str(),
        }
    }
}

/// The content of a result that may hold an error of the library.
pub open spec fn outcome<T: View>(r: Result<T, GwsError>) -> Result<T::V, ErrorView> {
    match r {
        Ok(t) => Ok(t@),
        Err(e) => Err(e@),
    }
}

/// An error says what it was made with, whatever its kind.
pub proof fn law_error_says_its_text(text: Seq<char>)
    ensures
        ErrorView::Validation(text).message() == text,
        ErrorView::Discovery(text).message() == text,
        ErrorView::Other(text).message() == text,
        ErrorView::Service(text).message() == text,
{
}

} // verus!
