//! The execution state of the machine.

use vstd::prelude::*;

verus! {

/// Whether the machine executes instructions or is suspended.
#[derive(Debug, Clone, Copy, PartialEq, Eq)]
pub enum MachineState {
    /// Instructions are fetched and executed.
    Normal,
    /// Execution is suspended until a key is pressed; the key code then
    /// goes to register `r`.
    WaitKeyPress { r: u8 },
}

} // verus!
