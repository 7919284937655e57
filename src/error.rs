use vstd::prelude::*;

verus! {

/// What can end a request: the remote catalog could not be read, or the
/// store refused a query or a write. Each carries its textual description.
#[derive(Debug)]
pub enum BgError {
    Fetch(String),
    Store(String),
}

/// The abstract value of an error: its kind and its description.
pub enum ErrorView {
    Fetch(Seq<char>),
    Store(Seq<char>),
}

impl View for BgError {
    type V = ErrorView;

    open spec fn view(&self) -> ErrorView {
        match self {
            BgError::Fetch(m) => ErrorView::Fetch(m@),
            BgError::Store(m) => ErrorView::Store(m@),
        }
    }
}

impl ErrorView {
    /// The description that the error carries.
    pub open spec fn text(self) -> Seq<char> {
        match self {
            ErrorView::Fetch(m) => m,
            ErrorView::Store(m) => m,
        }
    }
}

impl BgError {
    /// The textual description of the error.
    pub fn message(&self) -> (r: String)
        ensures
            r@ == self@.text(),
    {
        match self {
            BgError::Fetch(m) => m.clone(),
            BgError::Store(m) => m.clone(),
        }
    }

    /// A copy of the error.
    pub fn duplicate(&self) -> (r: BgError)
        ensures
            r@ == self@,
    {
        match self {
            BgError::Fetch(m) => BgError::Fetch(m.clone()),
            BgError::Store(m) => BgError::Store(m.clone()),
        }
    }
}

} // verus!
