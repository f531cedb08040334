use vstd::prelude::*;

verus! {

/// An RGBA colour, one byte per channel (255 is full intensity or opaque).
#[derive(Debug, Clone, Copy, PartialEq, Eq, Structural)]
pub struct Color {
    pub red: u8,
    pub green: u8,
    pub blue: u8,
    pub alpha: u8,
}

} // verus!
