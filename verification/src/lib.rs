//! Live tracking of the riders of an endurance race.
//!
//! A registry hands out one snapshot stream per race and one location stream
//! per rider of a race. Each stream is fed by a small state machine: a poller
//! that decides what to do with the outcome of a fetch, and a deriver that
//! turns snapshots into address lookups, one per change of position. The
//! machines do no input or output themselves; they say what is to be done and
//! are told what came of it.
use vstd::prelude::*;

pub mod coordinates;
pub mod fmc;
pub mod locations;
pub mod nominatim;
pub mod subscriptions;
pub mod text;

pub use subscriptions::Subscriptions;

verus! {

/// What a subscriber sees of a stream: nothing yet, or the latest value.
#[derive(Debug, Clone, PartialEq, Eq)]
pub enum Update<T> {
    Pending,
    New(T),
}

impl<T> Update<T> {
    /// The value carried, if there is one.
    pub fn into_inner(self) -> (r: Option<T>)
        ensures
            r == match self {
                Update::Pending => None::<T>,
                Update::New(x) => Some(x),
            },
    {
        match self {
            Update::Pending => None,
            Update::New(x) => Some(x),
        }
    }
}

} // verus!
