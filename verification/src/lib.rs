//! Preprocessing of Winnipeg census, street and neighbourhood data.
use vstd::prelude::*;

pub mod census;
pub mod geospatial;
pub mod location;
pub mod neighbourhood;
pub mod street;
pub mod text;

verus! {

/// A census value that may be missing for a documented reason.
#[derive(Clone, Copy, Debug, PartialEq, Eq)]
pub enum Datapoint<T> {
    NotApplicable,
    Redacted,
    Datapoint(T),
}

} // verus!
