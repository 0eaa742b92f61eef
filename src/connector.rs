//! The capability through which a controller reaches the pins.

use vstd::prelude::*;

use crate::pin::Pin;

verus! {

/// Reads and writes the level of each logical pin of a chain.
///
/// A backend describes what it holds as a mathematical `Model`, says which
/// level a pin reads in a model, and how a model changes when a pin is set.
/// The controller's contracts are stated over these three spec functions, so
/// they hold for every backend: real lines, the emulator or a test stub.
pub trait Connector {
    /// What the backend holds, as a mathematical value.
    type Model;

    /// The current model of the backend.
    spec fn model(&self) -> Self::Model;

    /// The level that `pin` reads in `m`.
    spec fn reads(m: Self::Model, pin: Pin) -> bool;

    /// The model after `pin` is driven to `level` in `m`.
    spec fn set_to(m: Self::Model, pin: Pin, level: bool) -> Self::Model;

    /// Drives `pin` to `level`.
    fn set(&mut self, pin: Pin, level: bool)
        ensures
            final(self).model() == Self::set_to(old(self).model(), pin, level),
    ;

    /// Reads the level of `pin`.
    fn get(&self, pin: Pin) -> (r: bool)
        ensures
            r == Self::reads(self.model(), pin),
    ;
}

} // verus!
