//! What can go wrong while a cluster is set up or the dispatch loop runs.

use vstd::prelude::*;

verus! {

/// A cluster could not be set up from what its topology files hold.
#[derive(Clone, Copy, PartialEq, Eq, Structural, Debug)]
pub enum SetupError {
    /// A word of a list is not an integer, or not one that fits.
    Unparseable,
    /// A list that must name something is empty.
    Empty,
}

/// A cluster's actor cannot go on.
#[derive(Clone, Copy, PartialEq, Eq, Structural, Debug)]
pub enum ActorError {
    /// Every sender of the actor's command channel is gone.
    ChannelDisconnect,
}

/// The frame sensor could not read what it polled.
#[derive(Clone, Copy, PartialEq, Eq, Structural, Debug)]
pub enum SensorError {
    /// The refresh rate is no whole number of frames per second.
    Unparseable,
}

/// The dispatch loop cannot go on.
#[derive(Clone, Copy, PartialEq, Eq, Structural, Debug)]
pub enum DispatchError {
    /// The window size for a frame rate does not fit its integer type.
    NumericOverflow,
}

} // verus!
