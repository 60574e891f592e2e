//! CPU feature flags, as the feature probe reports them.

use vstd::prelude::*;

verus! {

/// CPU feature flags.  The probe itself executes processor instructions
/// and stays with the caller; this is the record it fills in.
#[derive(Clone, Copy, Debug, PartialEq, Eq, Structural)]
pub struct CpuFeatures {
    /// SSE support.
    pub sse: bool,
    /// SSE2 support.
    pub sse2: bool,
    /// Long mode (64-bit) support.
    pub long_mode: bool,
    /// NX (no-execute) bit support.
    pub nx: bool,
    /// 1 GiB page support.
    pub page_1gb: bool,
}

} // verus!
