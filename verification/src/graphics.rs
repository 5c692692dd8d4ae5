use vstd::prelude::*;

verus! {

/// A colour as four channels, each a level from 0 (none) to 255 (full).
#[derive(Debug, Clone, Copy, PartialEq, Eq, Structural)]
pub struct Color {
    pub red: u8,
    pub green: u8,
    pub blue: u8,
    pub alpha: u8,
}

} // verus!
