//! Floating-point numbers as the bit patterns that the shell hands in: the
//! order and the equality of the numbers that they stand for. What is no number
//! is equal to nothing and lies on neither side of anything, and the two zeros
//! are one.

use vstd::prelude::*;
use crate::geom::Pt;

verus! {

/// The sign of a 32-bit float.
pub const SIGN: u32 = 0x8000_0000;

/// The infinite 32-bit float.
pub const INFINITE: u32 = 0x7f80_0000;

/// The infinite 32-bit float below zero.
pub const BELOW_ALL: u32 = 0xff80_0000;

/// Does the pattern stand for no number?
pub open spec fn nan(v: u32) -> bool {
    v % SIGN > INFINITE
}

/// Where the number of a pattern stands among all of them.
pub open spec fn place(v: u32) -> int {
    if v < SIGN {
        v as int
    } else {
        SIGN - v
    }
}

/// Are the two numbers equal?
pub open spec fn equal(a: u32, b: u32) -> bool {
    !nan(a) && !nan(b) && place(a) == place(b)
}

/// Is the first number less than the second?
pub open spec fn below(a: u32, b: u32) -> bool {
    !nan(a) && !nan(b) && place(a) < place(b)
}

/// Is the first number not greater than the second?
pub open spec fn at_most(a: u32, b: u32) -> bool {
    !nan(a) && !nan(b) && place(a) <= place(b)
}

/// Neither infinite nor no number at all.
pub open spec fn finite(v: u32) -> bool {
    v % SIGN < INFINITE
}

pub fn is_nan(v: u32) -> (r: bool)
    ensures
        r == nan(v),
{
    v % SIGN > INFINITE
}

pub fn is_finite(v: u32) -> (r: bool)
    ensures
        r == finite(v),
{
    v % SIGN < INFINITE
}

/// Where the number of a pattern stands among all of them.
pub fn place_of(v: u32) -> (r: i64)
    ensures
        r == place(v),
{
    if v < SIGN {
        v as i64
    } else {
        SIGN as i64 - v as i64
    }
}

pub fn is_equal(a: u32, b: u32) -> (r: bool)
    ensures
        r == equal(a, b),
{
    !is_nan(a) && !is_nan(b) && place_of(a) == place_of(b)
}

pub fn is_below(a: u32, b: u32) -> (r: bool)
    ensures
        r == below(a, b),
{
    !is_nan(a) && !is_nan(b) && place_of(a) < place_of(b)
}

pub fn is_at_most(a: u32, b: u32) -> (r: bool)
    ensures
        r == at_most(a, b),
{
    !is_nan(a) && !is_nan(b) && place_of(a) <= place_of(b)
}

/// Is this a place where a number can stand?
pub open spec fn is_place(n: int) -> bool {
    -0x7fff_ffff <= n <= 0x7fff_ffff
}

/// The pattern of the number at this place.
pub open spec fn pattern(n: int) -> u32 {
    if n >= 0 {
        n as u32
    } else {
        (SIGN - n) as u32
    }
}

/// The pattern of the number at this place.
pub fn pattern_at(n: i64) -> (r: u32)
    requires
        is_place(n as int),
    ensures
        r == pattern(n as int),
        place(r) == n,
{
    if n >= 0 {
        n as u32
    } else {
        (SIGN as i64 - n) as u32
    }
}

/// The pattern, with one zero for both.
pub open spec fn canonical(v: u32) -> u32 {
    if v == SIGN {
        0
    } else {
        v
    }
}

/// Beside a number, equality is that of the patterns, but for the zeros.
pub proof fn lemma_equal(a: u32, b: u32)
    ensures
        !nan(a) ==> (equal(a, b) <==> canonical(a) == canonical(b)),
        equal(a, b) == equal(b, a),
{
}

/// Are the two points at the same place?
pub open spec fn together(a: Pt, b: Pt) -> bool {
    equal(a.x, b.x) && equal(a.y, b.y)
}

pub fn are_together(a: Pt, b: Pt) -> (r: bool)
    ensures
        r == together(a, b),
{
    is_equal(a.x, b.x) && is_equal(a.y, b.y)
}

/// Does the pattern stand for a point?
pub open spec fn on_plane(p: Pt) -> bool {
    !nan(p.x) && !nan(p.y)
}

/// The sign of a 64-bit float.
pub const SIGN_64: u64 = 0x8000_0000_0000_0000;

/// The infinite 64-bit float.
pub const INFINITE_64: u64 = 0x7ff0_0000_0000_0000;

/// Does the pattern of a 64-bit float stand for no number?
pub open spec fn nan_64(v: u64) -> bool {
    v % SIGN_64 > INFINITE_64
}

/// Where the number of a 64-bit float stands among all of them.
pub open spec fn place_64(v: u64) -> int {
    if v < SIGN_64 {
        v as int
    } else {
        SIGN_64 - v
    }
}

/// Is the first of two 64-bit floats less than the second?
pub open spec fn below_64(a: u64, b: u64) -> bool {
    !nan_64(a) && !nan_64(b) && place_64(a) < place_64(b)
}

pub fn is_below_64(a: u64, b: u64) -> (r: bool)
    ensures
        r == below_64(a, b),
{
    if a % SIGN_64 > INFINITE_64 || b % SIGN_64 > INFINITE_64 {
        false
    } else if a < SIGN_64 {
        b < SIGN_64 && a < b
    } else if b < SIGN_64 {
        a > SIGN_64 || b > 0
    } else {
        a > b
    }
}

} // verus!
