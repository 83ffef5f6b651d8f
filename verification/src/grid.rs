use vstd::prelude::*;

use crate::coords::HexCoords;
use crate::layout::LatticePos;
use crate::layout::lattice_x;
use crate::layout::lattice_y;
use crate::layout::position_of;

verus! {

/// Number of tiles of a board of the given radius: one center tile plus six
/// times the level for every ring up to the radius.
pub open spec fn tile_count(radius: int) -> int {
    1 + 3 * radius * (radius + 1)
}

/// Where an address stands in the generation order: the center first, then
/// each ring in full, walked sextant by sextant with offsets ascending.
pub open spec fn coord_index(c: HexCoords) -> int {
    if c.level == 0 {
        0
    } else {
        tile_count(c.level - 1) + c.position * c.level + c.offset
    }
}

/// Each ring adds six times its level to the count of tiles.
pub proof fn lemma_tile_count_step(l: int)
    requires
        l >= 1,
    ensures
        tile_count(l) == tile_count(l - 1) + 6 * l,
{
    assert(3 * l * (l + 1) == 3 * (l - 1) * l + 6 * l) by (nonlinear_arith);
}

/// Enumerates every tile of a board of the given radius, pairing each address
/// with its place on the layout lattice.
///
/// The board holds exactly `tile_count(radius)` tiles: each well-formed
/// address within the radius appears exactly once, at its generation index,
/// so all emitted addresses are distinct. A radius of zero yields only the
/// center. The radius bound only keeps ring indices representable.
pub fn generate(radius: u32) -> (r: Vec<(HexCoords, LatticePos)>)
    requires
        radius < u32::MAX,
    ensures
        r@.len() == tile_count(radius as int),
        forall|k: int| 0 <= k < r@.len() ==> (#[trigger] r@[k]).0.in_grid(radius),
        forall|k: int| 0 <= k < r@.len() ==> coord_index((#[trigger] r@[k]).0) == k,
        forall|k: int|
            0 <= k < r@.len() ==> (#[trigger] r@[k]).1.x == lattice_x(r@[k].0) && r@[k].1.y
                == lattice_y(r@[k].0),
        forall|j: int, k: int|
            0 <= j < k < r@.len() ==> (#[trigger] r@[j]).0 != (#[trigger] r@[k]).0,
        forall|c: HexCoords|
            #[trigger] c.in_grid(radius) ==> exists|k: int|
                0 <= k < r@.len() && r@[k].0 == c,
{
    let center = HexCoords::new();
    let mut out: Vec<(HexCoords, LatticePos)> = Vec::new();
    out.push((center, position_of(center)));
    let mut l: u32 = 1;
    while l <= radius
        invariant
            1 <= l <= radius + 1,
            radius < u32::MAX,
            out@.len() == tile_count(l as int - 1),
            forall|k: int|
                0 <= k < out@.len() ==> (#[trigger] out@[k]).0.wf() && out@[k].0.level < l,
            forall|k: int| 0 <= k < out@.len() ==> coord_index((#[trigger] out@[k]).0) == k,
            forall|k: int|
                0 <= k < out@.len() ==> (#[trigger] out@[k]).1.x == lattice_x(out@[k].0)
                    && out@[k].1.y == lattice_y(out@[k].0),
            forall|c: HexCoords|
                c.wf() && c.level < l ==> 0 <= #[trigger] coord_index(c) < out@.len()
                    && out@[coord_index(c)].0 == c,
        decreases radius + 1 - l,
    {
        let mut s: u32 = 0;
        while s < 6
            invariant
                1 <= l <= radius,
                s <= 6,
                out@.len() == tile_count(l as int - 1) + s * l,
                forall|k: int|
                    0 <= k < out@.len() ==> (#[trigger] out@[k]).0.wf() && out@[k].0.level <= l,
                forall|k: int| 0 <= k < out@.len() ==> coord_index((#[trigger] out@[k]).0) == k,
                forall|k: int|
                    0 <= k < out@.len() ==> (#[trigger] out@[k]).1.x == lattice_x(out@[k].0)
                        && out@[k].1.y == lattice_y(out@[k].0),
                forall|c: HexCoords|
                    c.wf() && (c.level < l || (c.level == l && c.position < s)) ==> 0
                        <= #[trigger] coord_index(c) < out@.len() && out@[coord_index(c)].0 == c,
            decreases 6 - s,
        {
            let mut o: u32 = 0;
            while o < l
                invariant
                    1 <= l <= radius,
                    s < 6,
                    o <= l,
                    out@.len() == tile_count(l as int - 1) + s * l + o,
                    forall|k: int|
                        0 <= k < out@.len() ==> (#[trigger] out@[k]).0.wf() && out@[k].0.level
                            <= l,
                    forall|k: int| 0 <= k < out@.len() ==> coord_index((#[trigger] out@[k]).0) == k,
                    forall|k: int|
                        0 <= k < out@.len() ==> (#[trigger] out@[k]).1.x == lattice_x(out@[k].0)
                            && out@[k].1.y == lattice_y(out@[k].0),
                    forall|c: HexCoords|
                        c.wf() && (c.level < l || (c.level == l && (c.position < s || (c.position
                            == s && c.offset < o)))) ==> 0 <= #[trigger] coord_index(c)
                            < out@.len() && out@[coord_index(c)].0 == c,
                decreases l - o,
            {
                let c = HexCoords { level: l, position: s, offset: o };
                let pos = position_of(c);
                out.push((c, pos));
                o += 1;
            }
            proof {
                assert((s + 1) * l == s * l + l) by (nonlinear_arith);
            }
            s += 1;
        }
        proof {
            lemma_tile_count_step(l as int);
        }
        l += 1;
    }
    proof {
        assert forall|j: int, k: int| 0 <= j < k < out@.len() implies (#[trigger] out@[j]).0 != (
        #[trigger] out@[k]).0 by {
            assert(coord_index(out@[j].0) == j);
            assert(coord_index(out@[k].0) == k);
        };
        assert forall|c: HexCoords| #[trigger] c.in_grid(radius) implies exists|k: int|
            0 <= k < out@.len() && out@[k].0 == c by {
            assert(out@[coord_index(c)].0 == c);
        };
    }
    out
}

} // verus!
