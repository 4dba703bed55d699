//! Modifier key flags (bitmask), independent of any platform.
use vstd::prelude::*;

verus! {

pub const SHIFT: u16 = 0x1;

pub const CONTROL: u16 = 0x2;

pub const ALT: u16 = 0x4;

pub const SUPER: u16 = 0x8;

/// The union of all modifier flags.
pub const ALL_FLAGS: u16 = 0xF;

} // verus!
