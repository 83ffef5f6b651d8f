use vstd::prelude::*;

use crate::coords::HexCoords;

verus! {

/// The sextant that follows `p` going around the ring.
pub open spec fn next_sextant(p: u32) -> u32 {
    ((p + 1) % 6) as u32
}

/// The sextant that precedes `p` going around the ring.
pub open spec fn prev_sextant(p: u32) -> u32 {
    ((p + 5) % 6) as u32
}

/// The six neighbours of a tile, derived from its address alone.
///
/// The order is: the two same-ring neighbours, then the inward neighbours,
/// then the outward neighbours. A ring's circumference grows by six tiles per
/// level, so a corner tile (`offset == 0`) has one inward and three outward
/// contacts, while an edge tile (`offset > 0`) has two of each; the center
/// touches the six corners of ring one. Entries one ring beyond the board's
/// radius are legitimate addresses that simply match no tile.
pub open spec fn neighbour_list(c: HexCoords) -> Seq<HexCoords> {
    let l: u32 = c.level;
    let p: u32 = c.position;
    let o: u32 = c.offset;
    if l == 0 {
        seq![
            HexCoords { level: 1, position: 0, offset: 0 },
            HexCoords { level: 1, position: 1, offset: 0 },
            HexCoords { level: 1, position: 2, offset: 0 },
            HexCoords { level: 1, position: 3, offset: 0 },
            HexCoords { level: 1, position: 4, offset: 0 },
            HexCoords { level: 1, position: 5, offset: 0 },
        ]
    } else if l == 1 {
        seq![
            HexCoords { level: 1, position: next_sextant(p), offset: 0 },
            HexCoords { level: 1, position: prev_sextant(p), offset: 0 },
            HexCoords { level: 0, position: 0, offset: 0 },
            HexCoords { level: 2, position: prev_sextant(p), offset: 1 },
            HexCoords { level: 2, position: p, offset: 0 },
            HexCoords { level: 2, position: p, offset: 1 },
        ]
    } else if o == 0 {
        seq![
            HexCoords { level: l, position: p, offset: 1 },
            HexCoords { level: l, position: prev_sextant(p), offset: (l - 1) as u32 },
            HexCoords { level: (l - 1) as u32, position: p, offset: 0 },
            HexCoords { level: (l + 1) as u32, position: prev_sextant(p), offset: l },
            HexCoords { level: (l + 1) as u32, position: p, offset: 0 },
            HexCoords { level: (l + 1) as u32, position: p, offset: 1 },
        ]
    } else {
        seq![
            HexCoords { level: l, position: p, offset: (o - 1) as u32 },
            if o == l - 1 {
                HexCoords { level: l, position: next_sextant(p), offset: 0 }
            } else {
                HexCoords { level: l, position: p, offset: (o + 1) as u32 }
            },
            HexCoords { level: (l - 1) as u32, position: p, offset: (o - 1) as u32 },
            if o == l - 1 {
                HexCoords { level: (l - 1) as u32, position: next_sextant(p), offset: 0 }
            } else {
                HexCoords { level: (l - 1) as u32, position: p, offset: o }
            },
            HexCoords { level: (l + 1) as u32, position: p, offset: o },
            HexCoords { level: (l + 1) as u32, position: p, offset: (o + 1) as u32 },
        ]
    }
}

impl HexCoords {
    /// The six adjacent addresses of this tile, computed case by case:
    /// center, ring one, corner of an outer ring, or edge of an outer ring.
    ///
    /// The result is a multiset: at `level == 1` the listed neighbours are
    /// not all distinct tiles. The level bound only keeps the outward
    /// neighbours' ring index representable.
    pub fn get_neighbours(self) -> (r: [HexCoords; 6])
        requires
            self.wf(),
            self.level < u32::MAX,
        ensures
            r@ == neighbour_list(self),
    {
        proof {
            lemma_sextant_bounds(self.position);
        }
        let l: u32 = self.level;
        let p: u32 = self.position;
        let o: u32 = self.offset;
        if l == 0 {
            [
                HexCoords { level: 1, position: 0, offset: 0 },
                HexCoords { level: 1, position: 1, offset: 0 },
                HexCoords { level: 1, position: 2, offset: 0 },
                HexCoords { level: 1, position: 3, offset: 0 },
                HexCoords { level: 1, position: 4, offset: 0 },
                HexCoords { level: 1, position: 5, offset: 0 },
            ]
        } else if l == 1 {
            [
                HexCoords { level: 1, position: (p + 1) % 6, offset: 0 },
                HexCoords { level: 1, position: (p + 5) % 6, offset: 0 },
                HexCoords { level: 0, position: 0, offset: 0 },
                HexCoords { level: 2, position: (p + 5) % 6, offset: 1 },
                HexCoords { level: 2, position: p, offset: 0 },
                HexCoords { level: 2, position: p, offset: 1 },
            ]
        } else if o == 0 {
            [
                HexCoords { level: l, position: p, offset: 1 },
                HexCoords { level: l, position: (p + 5) % 6, offset: l - 1 },
                HexCoords { level: l - 1, position: p, offset: 0 },
                HexCoords { level: l + 1, position: (p + 5) % 6, offset: l },
                HexCoords { level: l + 1, position: p, offset: 0 },
                HexCoords { level: l + 1, position: p, offset: 1 },
            ]
        } else {
            let along = if o == l - 1 {
                HexCoords { level: l, position: (p + 1) % 6, offset: 0 }
            } else {
                HexCoords { level: l, position: p, offset: o + 1 }
            };
            let inward = if o == l - 1 {
                HexCoords { level: l - 1, position: (p + 1) % 6, offset: 0 }
            } else {
                HexCoords { level: l - 1, position: p, offset: o }
            };
            [
                HexCoords { level: l, position: p, offset: o - 1 },
                along,
                HexCoords { level: l - 1, position: p, offset: o - 1 },
                inward,
                HexCoords { level: l + 1, position: p, offset: o },
                HexCoords { level: l + 1, position: p, offset: o + 1 },
            ]
        }
    }
}

/// Neighbouring sextants stay below six, and stepping forward then back
/// (or back then forward) around the ring returns to the same sextant.
pub proof fn lemma_sextant_bounds(p: u32)
    requires
        p < 6,
    ensures
        next_sextant(p) < 6,
        prev_sextant(p) < 6,
        next_sextant(prev_sextant(p)) == p,
        prev_sextant(next_sextant(p)) == p,
{
}

/// Adjacency is symmetric: whenever `b` is listed among the neighbours of a
/// well-formed address `a`, then `a` is listed among the neighbours of `b`.
pub proof fn lemma_neighbours_symmetric(a: HexCoords, b: HexCoords)
    requires
        a.wf(),
        a.level < u32::MAX,
        neighbour_list(a).contains(b),
    ensures
        neighbour_list(b).contains(a),
{
    lemma_neighbours_wf(a);
    lemma_sextant_bounds(a.position);
    let i = choose|i: int|
        0 <= i < neighbour_list(a).len() && neighbour_list(a)[i] == b;
    lemma_sextant_bounds(b.position);
    let l: u32 = a.level;
    let p: u32 = a.position;
    let o: u32 = a.offset;
    if l == 0 {
        // `b` sits on ring one; its inward neighbour is the center, `a`.
        assert(neighbour_list(b)[2] == a);
    } else if l == 1 {
        if i == 0 {
            assert(neighbour_list(b)[1] == a);
        } else if i == 1 {
            assert(neighbour_list(b)[0] == a);
        } else if i == 2 {
            // `b` is the center; `a` is the ring-one corner of sextant `p`.
            if p == 0 {
                assert(neighbour_list(b)[0] == a);
            } else if p == 1 {
                assert(neighbour_list(b)[1] == a);
            } else if p == 2 {
                assert(neighbour_list(b)[2] == a);
            } else if p == 3 {
                assert(neighbour_list(b)[3] == a);
            } else if p == 4 {
                assert(neighbour_list(b)[4] == a);
            } else {
                assert(neighbour_list(b)[5] == a);
            }
        } else if i == 3 {
            assert(neighbour_list(b)[3] == a);
        } else if i == 4 {
            assert(neighbour_list(b)[2] == a);
        } else {
            assert(neighbour_list(b)[2] == a);
        }
    } else if o == 0 {
        if i == 0 {
            assert(neighbour_list(b)[0] == a);
        } else if i == 1 {
            assert(neighbour_list(b)[1] == a);
        } else if i == 2 {
            // One ring in, same corner; `a` is its middle outward neighbour.
            assert(neighbour_list(b)[4] == a);
        } else if i == 3 {
            assert(neighbour_list(b)[3] == a);
        } else if i == 4 {
            assert(neighbour_list(b)[2] == a);
        } else {
            assert(neighbour_list(b)[2] == a);
        }
    } else {
        if i == 0 {
            if o == 1 {
                assert(neighbour_list(b)[0] == a);
            } else {
                assert(neighbour_list(b)[1] == a);
            }
        } else if i == 1 {
            if o == l - 1 {
                assert(neighbour_list(b)[1] == a);
            } else {
                assert(neighbour_list(b)[0] == a);
            }
        } else if i == 2 {
            // One ring in, one step back; `a` is among its outward contacts.
            if l == 2 {
                // `b` lies on ring one
                assert(neighbour_list(b)[5] == a);
            } else {
                // `b` is a corner or an edge tile of ring `l - 1`
                assert(neighbour_list(b)[5] == a);
            }
        } else if i == 3 {
            if o == l - 1 {
                assert(neighbour_list(b)[3] == a);
            } else {
                assert(neighbour_list(b)[4] == a);
            }
        } else if i == 4 {
            assert(neighbour_list(b)[3] == a);
        } else {
            assert(neighbour_list(b)[2] == a);
        }
    }
}

/// Every neighbour of a well-formed address is itself well formed, and lies
/// at most one ring away.
pub proof fn lemma_neighbours_wf(c: HexCoords)
    requires
        c.wf(),
        c.level < u32::MAX,
    ensures
        neighbour_list(c).len() == 6,
        forall|i: int|
            0 <= i < 6 ==> (#[trigger] neighbour_list(c)[i]).wf(),
        forall|i: int|
            0 <= i < 6 ==> c.level - 1 <= #[trigger] neighbour_list(c)[i].level <= c.level + 1,
{
    lemma_sextant_bounds(c.position);
}

} // verus!
