use vstd::prelude::*;

verus! {

/// A location in the arena, in length units.
#[derive(Debug, Clone, Copy, PartialEq, Eq, Structural)]
pub struct Point {
    pub x: i64,
    pub y: i64,
}

/// A velocity, in length units per time unit.
#[derive(Debug, Clone, Copy, PartialEq, Eq, Structural)]
pub struct Velocity {
    pub x: i64,
    pub y: i64,
}

/// A display colour, one byte per channel.
#[derive(Debug, Clone, Copy, PartialEq, Eq, Structural)]
pub struct Rgba {
    pub r: u8,
    pub g: u8,
    pub b: u8,
    pub a: u8,
}

/// The alpha value of a fully opaque colour.
pub const OPAQUE: u8 = 255;

/// The square of the Euclidean distance between two points.
pub open spec fn dist_sq(a: Point, b: Point) -> int {
    (b.x - a.x) * (b.x - a.x) + (b.y - a.y) * (b.y - a.y)
}

/// Two discs touch or overlap: the distance between their centres is at most
/// the sum of their radii (both radii are non-negative).
pub open spec fn discs_meet(a: Point, ra: int, b: Point, rb: int) -> bool {
    dist_sq(a, b) <= (ra + rb) * (ra + rb)
}

impl Point {
    /// Whether a disc of radius `r` centred here meets a disc of radius
    /// `other_r` centred at `other`.
    pub fn within_reach(&self, r: i64, other: &Point, other_r: i64) -> (res: bool)
        requires
            r >= 0,
            other_r >= 0,
        ensures
            res == discs_meet(*self, r as int, *other, other_r as int),
    {
        let dx: i128 = other.x as i128 - self.x as i128;
        let dy: i128 = other.y as i128 - self.y as i128;
        let reach: i128 = r as i128 + other_r as i128;
        let ax: u128 = if dx < 0 { (-dx) as u128 } else { dx as u128 };
        let ay: u128 = if dy < 0 { (-dy) as u128 } else { dy as u128 };
        let ur: u128 = reach as u128;
        if ax > ur || ay > ur {
            proof {
                let (dxi, dyi, ri) = (dx as int, dy as int, reach as int);
                assert(dxi * dxi > ri * ri || dyi * dyi > ri * ri) by (nonlinear_arith)
                    requires
                        ri >= 0,
                        (dxi > ri || -dxi > ri || dyi > ri || -dyi > ri),
                ;
                assert(dxi * dxi >= 0 && dyi * dyi >= 0) by (nonlinear_arith);
            }
            false
        } else {
            proof {
                let (axi, ayi, ri) = (ax as int, ay as int, ur as int);
                assert(axi * axi <= ri * ri && ayi * ayi <= ri * ri && ri * ri < 0x1_0000_0000_0000_0000_0000_0000_0000_0000)
                    by (nonlinear_arith)
                    requires
                        0 <= axi <= ri,
                        0 <= ayi <= ri,
                        ri < 0x1_0000_0000_0000_0000,
                ;
                assert(axi * axi == (dx as int) * (dx as int)) by (nonlinear_arith)
                    requires axi == dx || axi == -dx;
                assert(ayi * ayi == (dy as int) * (dy as int)) by (nonlinear_arith)
                    requires ayi == dy || ayi == -dy;
            }
            let sx: u128 = ax * ax;
            let sy: u128 = ay * ay;
            let sr: u128 = ur * ur;
            sx <= sr - sy
        }
    }
}

} // verus!
