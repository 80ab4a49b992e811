//! The error model: one tagged failure type that tells a failure which left
//! the system clean from one that may have left a kernel object behind.

use crate::text::{append_decimal, decimal};
use vstd::prelude::*;
use vstd::string::*;

verus! {

/// What every failure carries.
#[derive(Debug)]
pub struct InnerError {
    os_error: i32,
    message: String,
}

/// A failure of an operation on a segment or on its lock.
#[derive(Debug)]
pub enum CortexError {
    /// The operation failed, and every kernel resource touched so far has
    /// been released.
    CleanSystem(InnerError),
    /// The operation failed, and a segment or a named lock may remain
    /// allocated.
    DirtySystem(InnerError),
}

/// What an [`InnerError`] stands for.
pub struct InnerErrorView {
    /// The OS error number captured where the operation failed.
    pub os_error: i32,
    /// A short label of the operation that failed.
    pub message: Seq<char>,
}

/// What a [`CortexError`] stands for.
pub enum CortexErrorView {
    CleanSystem(InnerErrorView),
    DirtySystem(InnerErrorView),
}

impl CortexErrorView {
    /// The clean failure of the operation labelled `message`.
    pub open spec fn clean(message: Seq<char>, os_error: i32) -> CortexErrorView {
        CortexErrorView::CleanSystem(InnerErrorView { os_error, message })
    }

    /// The dirty failure of the operation labelled `message`.
    pub open spec fn dirty(message: Seq<char>, os_error: i32) -> CortexErrorView {
        CortexErrorView::DirtySystem(InnerErrorView { os_error, message })
    }

    /// What the failure carries, whatever its kind.
    pub open spec fn inner(self) -> InnerErrorView {
        match self {
            CortexErrorView::CleanSystem(inner) => inner,
            CortexErrorView::DirtySystem(inner) => inner,
        }
    }

    /// The same failure, reported as clean.
    pub open spec fn as_clean(self) -> CortexErrorView {
        CortexErrorView::CleanSystem(self.inner())
    }

    /// The same failure, reported as dirty.
    pub open spec fn as_dirty(self) -> CortexErrorView {
        CortexErrorView::DirtySystem(self.inner())
    }

    /// The line that describes the failure to a person.
    pub open spec fn text(self) -> Seq<char> {
        self.inner().message + ". OS Error: "@ + decimal(self.inner().os_error as int)
    }
}

impl View for InnerError {
    type V = InnerErrorView;

    closed spec fn view(&self) -> InnerErrorView {
        InnerErrorView { os_error: self.os_error, message: self.message@ }
    }
}

impl View for CortexError {
    type V = CortexErrorView;

    open spec fn view(&self) -> CortexErrorView {
        match self {
            CortexError::CleanSystem(inner) => CortexErrorView::CleanSystem(inner@),
            CortexError::DirtySystem(inner) => CortexErrorView::DirtySystem(inner@),
        }
    }
}

/// What a result that holds nothing stands for.
pub open spec fn outcome_view(r: Result<(), CortexError>) -> Result<(), CortexErrorView> {
    match r {
        Ok(()) => Ok(()),
        Err(e) => Err(e@),
    }
}

impl InnerError {
    /// The OS error number captured where the operation failed.
    pub fn os_error(&self) -> (r: i32)
        ensures
            r == self@.os_error,
    {
        self.os_error
    }

    /// The label of the operation that failed.
    pub fn message(&self) -> (r: &str)
        ensures
            r@ == self@.message,
    {
        self.message.as_str()
    }
}

impl CortexError {
    /// What a failure of the operation labelled `message` carries, `os_error`
    /// being the OS error number captured where it failed.
    pub fn new_inner_error(message: &str, os_error: i32) -> (r: InnerError)
        ensures
            r@ == (InnerErrorView { os_error, message: message@ }),
    {
        InnerError { os_error, message: String::from_str(message) }
    }

    /// A failure that left no kernel resource behind.
    pub fn new_clean(message: &str, os_error: i32) -> (r: Self)
        ensures
            r@ == CortexErrorView::clean(message@, os_error),
    {
        let inner = Self::new_inner_error(message, os_error);
        CortexError::CleanSystem(inner)
    }

    /// A failure that may have left a kernel resource behind.
    pub fn new_dirty(message: &str, os_error: i32) -> (r: Self)
        ensures
            r@ == CortexErrorView::dirty(message@, os_error),
    {
        let inner = Self::new_inner_error(message, os_error);
        CortexError::DirtySystem(inner)
    }

    /// Whether every kernel resource touched was released.
    pub fn is_clean(&self) -> (r: bool)
        ensures
            r == (self@ is CleanSystem),
    {
        match self {
            CortexError::CleanSystem(_) => true,
            CortexError::DirtySystem(_) => false,
        }
    }

    /// Whether a kernel resource may remain allocated.
    pub fn is_dirty(&self) -> (r: bool)
        ensures
            r == (self@ is DirtySystem),
    {
        !self.is_clean()
    }

    /// What the failure carries, whatever its kind.
    pub fn inner(&self) -> (r: &InnerError)
        ensures
            r@ == self@.inner(),
    {
        match self {
            CortexError::CleanSystem(inner) => inner,
            CortexError::DirtySystem(inner) => inner,
        }
    }

    /// The same failure, reported as clean.
    pub fn into_clean(self) -> (r: Self)
        ensures
            r@ == self@.as_clean(),
    {
        match self {
            CortexError::CleanSystem(inner) => CortexError::CleanSystem(inner),
            CortexError::DirtySystem(inner) => CortexError::CleanSystem(inner),
        }
    }

    /// The same failure, reported as dirty.
    pub fn into_dirty(self) -> (r: Self)
        ensures
            r@ == self@.as_dirty(),
    {
        match self {
            CortexError::CleanSystem(inner) => CortexError::DirtySystem(inner),
            CortexError::DirtySystem(inner) => CortexError::DirtySystem(inner),
        }
    }

    /// The line that describes the failure to a person: the label of the
    /// operation, then the OS error number.
    pub fn to_string(&self) -> (r: String)
        ensures
            r@ == self@.text(),
    {
        let inner = self.inner();
        let mut line = String::from_str(inner.message());
        line.append(". OS Error: ");
        append_decimal(&mut line, inner.os_error());
        assert(line@ =~= self@.text());
        line
    }
}

} // verus!
