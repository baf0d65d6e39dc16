//! What the detection and storage workers do with each message they receive.
use vstd::prelude::*;

verus! {

/// A message a worker receives.
pub enum Received {
    /// The shutdown signal.
    Shutdown,
    /// A batch of events.
    Events,
    /// The event channel has closed.
    Closed,
}

/// What the worker does next.
pub enum Step {
    /// Handle the batch, then wait for the next message.
    Process,
    /// Stop.
    Stop,
}

/// A worker handles every batch and stops on shutdown or when its channel closes.
pub fn next_step(message: Received) -> (s: Step)
    ensures
        s is Process <==> message is Events,
{
    match message {
        Received::Events => Step::Process,
        Received::Shutdown => Step::Stop,
        Received::Closed => Step::Stop,
    }
}

} // verus!
