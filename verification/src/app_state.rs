//! What a user interface shows while model and search index are loading.

use vstd::prelude::*;
use vstd::string::*;

verus! {

/// A value that is built in the background was asked for too early.
#[derive(Debug, Clone, Copy, PartialEq, Eq, Structural)]
pub enum AsyncBuilderError {
    NotLoaded,
}

impl AsyncBuilderError {
    pub fn to_string(&self) -> (s: String)
        ensures
            s@ == "Still loading"@,
    {
        String::from_str("Still loading")
    }
}

/// How far loading has come.
#[derive(Clone, Debug, PartialEq, Eq)]
pub enum LoadState {
    Loading,
    Loaded,
    Error { error: String },
}

impl LoadState {
    /// The state once both the model and the searcher have ended their
    /// loading: loaded where both succeeded, and else the failure of the
    /// model, or, where the model succeeded, that of the searcher.
    pub fn from_results(model: Result<(), String>, searcher: Result<(), String>) -> (r: LoadState)
        ensures
            r == match (model, searcher) {
                (Ok(_), Ok(_)) => LoadState::Loaded,
                (Err(e), _) => LoadState::Error { error: e },
                (Ok(_), Err(e)) => LoadState::Error { error: e },
            },
    {
        match (model, searcher) {
            (Ok(_), Ok(_)) => LoadState::Loaded,
            (Err(e), _) => LoadState::Error { error: e },
            (Ok(_), Err(e)) => LoadState::Error { error: e },
        }
    }
}

} // verus!
