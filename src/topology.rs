use vstd::prelude::*;
use crate::components::{Position, SPACE_HALF};

verus! {

/// One coordinate after the arena's toroidal wrap: past either edge, it
/// re-enters from the opposite one.
pub open spec fn wrapped(c: int) -> int {
    let h = SPACE_HALF as int;
    let c1 = if c < -h { c + 2 * h } else { c };
    if c1 > h { c1 - 2 * h } else { c1 }
}

/// Wraps one coordinate into the arena.
pub fn wrap_coordinate(c: i32) -> (r: i32)
    ensures
        r == wrapped(c as int),
{
    let mut r = c;
    if r < -SPACE_HALF {
        r = r + 2 * SPACE_HALF;
    }
    if r > SPACE_HALF {
        r = r - 2 * SPACE_HALF;
    }
    r
}

/// Wraps both coordinates of a position into the arena.
pub fn warp_space(p: Position) -> (r: Position)
    ensures
        r.x == wrapped(p.x as int),
        r.y == wrapped(p.y as int),
{
    Position { x: wrap_coordinate(p.x), y: wrap_coordinate(p.y) }
}

/// A coordinate that drifted by at most one arena width past the arena
/// (so within three half-extents of the centre) lands inside the arena
/// after one wrap.
pub proof fn lemma_wrap_stays_in_arena(c: int)
    requires
        -3 * SPACE_HALF <= c <= 3 * SPACE_HALF,
    ensures
        -SPACE_HALF <= wrapped(c) <= SPACE_HALF,
{
}

/// A coordinate inside the arena is left where it is.
pub proof fn lemma_wrap_keeps_inside(c: int)
    requires
        -SPACE_HALF <= c <= SPACE_HALF,
    ensures
        wrapped(c) == c,
{
}

} // verus!
