use vstd::prelude::*;

use crate::coords::HexCoords;

verus! {

/// Where a tile sits on the layout lattice, relative to the grid's center.
///
/// Hex centers all lie on an integer lattice: a world position is recovered
/// as `center + (x * 3/2 * tile_radius, y * s * tile_radius)`, where `s` is
/// half the height-to-width ratio of a regular hexagon (about 0.866, the sine
/// of sixty degrees). Keeping the two integer factors here leaves that one
/// scaling step to the rendering layer.
#[derive(Clone, Copy, Debug, PartialEq, Eq, Structural)]
pub struct LatticePos {
    pub x: i64,
    pub y: i64,
}

/// Horizontal lattice factor of a tile: each ring is walked as a hexagonal
/// polygon, so within a sextant the step is a constant vector, and the six
/// sextants differ only in its direction.
pub open spec fn lattice_x(c: HexCoords) -> int {
    let l: int = c.level as int;
    let o: int = c.offset as int;
    if c.level == 0 {
        0
    } else if c.position == 0 {
        o
    } else if c.position == 1 {
        l
    } else if c.position == 2 {
        l - o
    } else if c.position == 3 {
        -o
    } else if c.position == 4 {
        -l
    } else {
        -l + o
    }
}

/// Vertical lattice factor of a tile; see `lattice_x`.
pub open spec fn lattice_y(c: HexCoords) -> int {
    let l: int = c.level as int;
    let o: int = c.offset as int;
    if c.level == 0 {
        0
    } else if c.position == 0 {
        2 * l - o
    } else if c.position == 1 {
        l - 2 * o
    } else if c.position == 2 {
        -l - o
    } else if c.position == 3 {
        -2 * l + o
    } else if c.position == 4 {
        -l + 2 * o
    } else {
        l + o
    }
}

/// Places an address on the layout lattice: the center tile at the origin,
/// and ring tiles along the six straight edges of their ring's hexagonal
/// perimeter, turning only at the corners.
pub fn position_of(c: HexCoords) -> (r: LatticePos)
    requires
        c.wf(),
    ensures
        r.x == lattice_x(c),
        r.y == lattice_y(c),
{
    let l: i64 = c.level as i64;
    let o: i64 = c.offset as i64;
    if c.level == 0 {
        LatticePos { x: 0, y: 0 }
    } else if c.position == 0 {
        LatticePos { x: o, y: 2 * l - o }
    } else if c.position == 1 {
        LatticePos { x: l, y: l - 2 * o }
    } else if c.position == 2 {
        LatticePos { x: l - o, y: -l - o }
    } else if c.position == 3 {
        LatticePos { x: -o, y: o - 2 * l }
    } else if c.position == 4 {
        LatticePos { x: -l, y: -l + 2 * o }
    } else {
        LatticePos { x: -l + o, y: l + o }
    }
}

/// The layout places distinct addresses at distinct lattice points: no two
/// tiles of a board share a world position.
pub proof fn lemma_lattice_injective(a: HexCoords, b: HexCoords)
    requires
        a.wf(),
        b.wf(),
        lattice_x(a) == lattice_x(b),
        lattice_y(a) == lattice_y(b),
    ensures
        a == b,
{
}

} // verus!
