use vstd::prelude::*;

verus! {

/// Why a feature could not change state.
#[derive(Debug, PartialEq, Eq)]
pub enum FeatureError {
    /// A setup or shutdown hook rejected the transition, for the reason given.
    Failure(String),
    /// No feature is registered under the identifier.
    DoesNotExist,
}

} // verus!
