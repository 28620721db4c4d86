//! Virtual machine definitions and implementations.

use vstd::prelude::*;

pub mod standard;

verus! {

/// A trait for a virtual machine of this language.
///
/// Accepts a program as a list of operations and reports an error when
/// something goes wrong during the run.
pub trait Vm {
    type Operation;

    type Error;

    /// Holds when the machine is in a fit state to start a run.
    spec fn ready(&self) -> bool;

    /// Run the program in the virtual machine.
    fn run(&mut self, program: Vec<Self::Operation>) -> Result<(), Self::Error>
        requires
            old(self).ready(),
    ;
}

} // verus!
