//! Records handed over from the platform's boot tables.

use vstd::prelude::*;

verus! {

/// Serial port configuration from the platform tables.
#[derive(Clone, Copy, Debug, PartialEq, Eq, Structural)]
pub struct SerialInfo {
    pub serial_type: u32,
    pub baseaddr: u32,
    pub baud: u32,
    pub regwidth: u32,
    pub input_hertz: u32,
}

} // verus!
