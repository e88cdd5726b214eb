//! Text modifiers, one bit each in a `u16` set.

use vstd::prelude::*;

verus! {

pub const NONE: u16 = 0x0000;

pub const BOLD: u16 = 0x0001;

pub const DIM: u16 = 0x0002;

pub const ITALIC: u16 = 0x0004;

pub const UNDERLINED: u16 = 0x0008;

pub const SLOW_BLINK: u16 = 0x0010;

pub const RAPID_BLINK: u16 = 0x0020;

pub const REVERSED: u16 = 0x0040;

pub const HIDDEN: u16 = 0x0080;

pub const CROSSED_OUT: u16 = 0x0100;

/// Whether every modifier of `part` is in `set`.
pub open spec fn holds(set: u16, part: u16) -> bool {
    set & part == part
}

/// Whether every modifier of `part` is in `set`.
pub fn contains(set: u16, part: u16) -> (found: bool)
    ensures
        found == holds(set, part),
{
    set & part == part
}

} // verus!
