//! The errors of the library.

use vstd::prelude::*;

verus! {

/// What went wrong.
#[derive(Debug)]
pub enum StoreError {
    /// The caller handed in something that cannot be used.
    InvalidInput { message: String },
    /// A text is not an absolute URL.
    InvalidUrl,
}

impl StoreError {
    /// An `InvalidInput` error with the given message.
    pub fn invalid_input(message: String) -> (r: StoreError)
        ensures
            r == (StoreError::InvalidInput { message }),
    {
        StoreError::InvalidInput { message }
    }

    /// The text that describes the error.
    pub open spec fn text(&self) -> Seq<char> {
        match self {
            StoreError::InvalidInput { message } => message@,
            StoreError::InvalidUrl => "not an absolute URL"@,
        }
    }

    /// The text that describes the error.
    pub fn message(&self) -> (r: String)
        ensures
            r@ == self.text(),
    {
        match self {
            StoreError::InvalidInput { message } => message.clone(),
            StoreError::InvalidUrl => "not an absolute URL".to_owned(),
        }
    }
}

/// An error about the input says what it was made with, and one about a URL says that
/// there is none.
pub proof fn lemma_texts(message: String)
    ensures
        (StoreError::InvalidInput { message }).text() == message@,
        StoreError::InvalidUrl.text() == "not an absolute URL"@,
{
}

} // verus!
