use vstd::prelude::*;

use crate::geometry::{Rgba, OPAQUE};

verus! {

/// Relies on macroquad::rand::gen_range, which is quad_rand::gen_range over
/// the process-wide generator. For `i32` it maps a uniform `u32` draw into
/// `low + (high - low) * u` with `0 <= u < 1`, computed in `f64`, where every
/// `i32` is exact, and truncates: for `low <= high` the result lies in
/// `[low, high]`.
#[verifier::external_body]
pub(crate) fn gen_range(low: i32, high: i32) -> (r: i32)
    requires
        low <= high,
    ensures
        low <= r <= high,
{
    macroquad::rand::gen_range(low, high)
}

/// A random opaque colour.
pub fn random_color() -> (c: Rgba)
    ensures
        c.a == OPAQUE,
{
    let r = gen_range(0, 255);
    let g = gen_range(0, 255);
    let b = gen_range(0, 255);
    Rgba { r: r as u8, g: g as u8, b: b as u8, a: OPAQUE }
}

} // verus!
