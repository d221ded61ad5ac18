//! Finite state machines that are driven by ticks.
//!
//! A machine holds states under keys and, for each state, an ordered list of
//! transition conditions. Each tick carries a timestamp; the machine enters the
//! current state if it has not done so yet, asks the conditions of that state
//! in the order of their registration, follows the first that names a
//! destination, and lets the state that is then current act.
//!
//! There are two machines with one behaviour: one that grows as states are
//! added ([`sync::allocating`]) and one with fixed limits ([`sync::bounded`]).
//! What they do is stated once, over a mathematical model ([`sync::model`]),
//! and what follows from it is proved in [`sync::laws`].
use vstd::prelude::*;

pub mod sync;

verus! {

/// An identifier for one state of a machine: small, copyable, hashable and
/// comparable. Two keys are equal exactly when they name the same state.
pub trait StateKey: Copy + PartialEq + Eq + std::hash::Hash + std::fmt::Debug {

}

impl<T> StateKey for T where T: Copy + PartialEq + Eq + std::hash::Hash + std::fmt::Debug {

}

/// Why a machine refused a call.
#[derive(Debug, Clone, Copy, Eq, PartialEq, Hash)]
pub enum StateMachineError<Key: StateKey> {
    /// A state was added under a key that the machine already holds.
    StateAlreadyRegistered(Key),
    /// A condition was added for a state that the machine does not hold.
    TransitionStartStateNotRegistered(Key),
    /// A state's list of conditions is full.
    StackAllocationError,
    /// The machine holds as many states as it can.
    StackBufferFull,
    /// A state that a tick needed is not held by the machine: its bookkeeping
    /// names a key that was never registered.
    HashMapMiss,
}

/// The result of a call that sets a machine up.
pub type StateMachineSetupResult<T, K> = Result<T, StateMachineError<K>>;

/// The result of a call on a machine with fixed limits.
pub type StateMachineResult<T, K> = Result<T, StateMachineError<K>>;

} // verus!
