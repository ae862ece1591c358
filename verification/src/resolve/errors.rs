//! What can go wrong while walking a crate.

use vstd::prelude::*;

use crate::resolve::items::{LowerError, LowerErrorView};
use crate::resolve::paths::{AbsolutePath, AbsolutePathView, Ident};

verus! {

/// The namespaces of the database.
#[derive(Clone, Copy, Debug, PartialEq, Eq, Structural)]
pub enum Namespace {
    Types,
    Symbols,
    Macros,
}

/// Why an item, a file or a module could not be walked.
#[derive(Debug)]
pub enum WalkError {
    /// The text is not a Rust source file; the message says why.
    Parse(String),
    /// The path is already defined in the namespace.
    AlreadyDefined(Namespace, AbsolutePath),
    /// The item could not be lowered.
    Lower(LowerError),
    /// The `#[path]` attribute, given by its text, assigns no string.
    MalformedPathAttribute(String),
    /// The source file lies in no directory.
    Root,
    /// No candidate for the source file of a module is a file.
    ModuleNotFound,
    /// The crate has no dependency of that name.
    ExternCrateNotFound(Ident),
    /// The item has nothing to do with imports or macros.
    PhaseIrrelevant,
    /// The item can never be named from outside.
    NonPub,
}

/// What a [`WalkError`] says.
pub enum WalkErrorView {
    Parse(Seq<char>),
    AlreadyDefined(Namespace, AbsolutePathView),
    Lower(LowerErrorView),
    MalformedPathAttribute(Seq<char>),
    Root,
    ModuleNotFound,
    ExternCrateNotFound(Seq<char>),
    PhaseIrrelevant,
    NonPub,
}

impl View for WalkError {
    type V = WalkErrorView;

    open spec fn view(&self) -> WalkErrorView {
        match self {
            WalkError::Parse(message) => WalkErrorView::Parse(message@),
            WalkError::AlreadyDefined(namespace, path) => WalkErrorView::AlreadyDefined(
                *namespace,
                path@,
            ),
            WalkError::Lower(error) => WalkErrorView::Lower(error@),
            WalkError::MalformedPathAttribute(text) => WalkErrorView::MalformedPathAttribute(text@),
            WalkError::Root => WalkErrorView::Root,
            WalkError::ModuleNotFound => WalkErrorView::ModuleNotFound,
            WalkError::ExternCrateNotFound(name) => WalkErrorView::ExternCrateNotFound(name@),
            WalkError::PhaseIrrelevant => WalkErrorView::PhaseIrrelevant,
            WalkError::NonPub => WalkErrorView::NonPub,
        }
    }
}

/// What a result says that carries no value.
pub open spec fn outcome(result: Result<(), WalkError>) -> Result<(), WalkErrorView> {
    match result {
        Ok(_) => Ok(()),
        Err(error) => Err(error@),
    }
}

} // verus!
