//! What can go wrong while reading analysis data.

use vstd::prelude::*;

verus! {

/// Why the analysis data of a crate could not be had.
#[derive(Debug)]
pub enum AnalysisError {
    /// Input or output failed; the message says how.
    Io(String),
    /// `cargo check` did not succeed.
    CargoCheckFailed,
    /// The directory does not exist.
    MissingSaveAnalysis { dir: String },
    /// Neither the environment nor `rustc` names a sysroot.
    CantResolveSysroot,
    /// Anything else.
    Other { cause: String },
}

/// What an [`AnalysisError`] says.
pub enum AnalysisErrorView {
    Io(Seq<char>),
    CargoCheckFailed,
    MissingSaveAnalysis { dir: Seq<char> },
    CantResolveSysroot,
    Other { cause: Seq<char> },
}

impl View for AnalysisError {
    type V = AnalysisErrorView;

    open spec fn view(&self) -> AnalysisErrorView {
        match self {
            AnalysisError::Io(message) => AnalysisErrorView::Io(message@),
            AnalysisError::CargoCheckFailed => AnalysisErrorView::CargoCheckFailed,
            AnalysisError::MissingSaveAnalysis { dir } => {
                AnalysisErrorView::MissingSaveAnalysis { dir: dir@ }
            },
            AnalysisError::CantResolveSysroot => AnalysisErrorView::CantResolveSysroot,
            AnalysisError::Other { cause } => AnalysisErrorView::Other { cause: cause@ },
        }
    }
}

impl AnalysisError {
    /// The error with the given cause.
    pub fn other(cause: &str) -> (error: Self)
        ensures
            error@ == (AnalysisErrorView::Other { cause: cause@ }),
    {
        AnalysisError::Other { cause: cause.to_owned() }
    }
}

/// What a result says that carries no value.
pub open spec fn outcome(result: Result<(), AnalysisError>) -> Result<(), AnalysisErrorView> {
    match result {
        Ok(_) => Ok(()),
        Err(error) => Err(error@),
    }
}

} // verus!
