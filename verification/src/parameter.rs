//! The host-facing delay-time parameter.
//!
//! The host thinks of a parameter as a name, a unit label, a normalised
//! value and an automation flag. The engine carries the normalised value in
//! thousandths of the unit interval; translating a host float in and out of
//! that fixed-point form is the adapter's job, and the engine's contract is
//! simply to read the latest value once at the start of each block.

use vstd::prelude::*;

verus! {

/// One automatable parameter, its value in thousandths of the normalised
/// unit range.
pub struct Parameter {
    pub name: String,
    pub label: String,
    pub value: u32,
    pub automatable: bool,
}

} // verus!
