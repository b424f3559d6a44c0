//! Plain values that stand for geometry. Coordinates, pressures and radii are
//! floating point on the shell's side; the library carries them as the bit
//! patterns that the shell hands in, copies them and hands them back. Where it
//! compares them, it compares the numbers (see [`crate::floats`]).

use vstd::prelude::*;

verus! {

/// A point; each coordinate is the bit pattern of a 32-bit float.
#[derive(Clone, Copy, PartialEq, Eq, Structural, Debug)]
pub struct Pt {
    pub x: u32,
    pub y: u32,
}

/// A point with the pen pressure that it was drawn with.
#[derive(Clone, Copy, PartialEq, Eq, Structural, Debug)]
pub struct Sample {
    pub at: Pt,
    pub pressure: u32,
}

/// An RGB colour of bytes.
#[derive(Clone, Copy, PartialEq, Eq, Structural, Debug)]
pub struct Rgb {
    pub r: u8,
    pub g: u8,
    pub b: u8,
}

/// An RGBA colour; each channel is the bit pattern of a 32-bit float.
#[derive(Clone, Copy, PartialEq, Eq, Structural, Debug)]
pub struct Colour {
    pub r: u32,
    pub g: u32,
    pub b: u32,
    pub a: u32,
}

/// A box of pixels: from the left and top edge to the right and bottom edge.
#[derive(Clone, Copy, PartialEq, Eq, Structural, Debug)]
pub struct PxBox {
    pub l: i32,
    pub t: i32,
    pub r: i32,
    pub b: i32,
}

/// The page's size in pixels.
#[derive(Clone, Copy, PartialEq, Eq, Structural, Debug)]
pub struct Size {
    pub w: u32,
    pub h: u32,
}

} // verus!
