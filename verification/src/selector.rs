use vstd::prelude::*;

use crate::coords::HexCoords;

verus! {

/// Magnitudes (positions, cursor samples, tile radius) the selector accepts;
/// the bound keeps every footprint comparison inside sixty-four bits.
pub const MAX_WORLD: i64 = 0x40_0000_0000_0000;

/// One tile as the selector sees it: its address and the world position of
/// its center, in whatever fixed-point unit the caller samples the cursor in.
#[derive(Clone, Copy, Debug, PartialEq, Eq, Structural)]
pub struct Hex {
    pub coords: HexCoords,
    pub x: i64,
    pub y: i64,
}

/// What the selector currently points at: nothing, or exactly one tile.
#[derive(Clone, Copy, Debug, PartialEq, Eq, Structural)]
pub enum Selection {
    Unselected,
    Selected(HexCoords),
}

/// Distance of two points along one axis.
pub open spec fn axis_gap(a: int, b: int) -> int {
    if a >= b {
        a - b
    } else {
        b - a
    }
}

/// The footprint that captures a fresh selection: a box of eight fifths of
/// the tile radius on each side, centered on the tile. It covers the whole
/// hexagon but stays under twice the radius, so boxes of adjacent tiles
/// overlap only a little and a scan settles on a single tile.
pub open spec fn in_select_footprint(cx: int, cy: int, hx: int, hy: int, radius: int) -> bool {
    5 * axis_gap(cx, hx) < 4 * radius && 5 * axis_gap(cy, hy) < 4 * radius
}

/// The oversized footprint that keeps an existing selection: as wide as the
/// capturing box but nine fifths of the tile radius tall, so a selection does
/// not flicker while the cursor jitters near the tile's upper or lower edge.
pub open spec fn in_retain_footprint(cx: int, cy: int, hx: int, hy: int, radius: int) -> bool {
    5 * axis_gap(cx, hx) < 4 * radius && 10 * axis_gap(cy, hy) < 9 * radius
}

/// A tile carrying the selected address still holds the cursor within its
/// retaining footprint.
pub open spec fn retains(tiles: Seq<Hex>, c: HexCoords, cx: int, cy: int, radius: int) -> bool {
    exists|i: int|
        0 <= i < tiles.len() && (#[trigger] tiles[i]).coords == c && in_retain_footprint(
            cx,
            cy,
            tiles[i].x as int,
            tiles[i].y as int,
            radius,
        )
}

/// Result of scanning the tiles in generation order: the first tile whose
/// capturing footprint holds the cursor, or no selection at all.
pub open spec fn scan_tiles(tiles: Seq<Hex>, cx: int, cy: int, radius: int) -> Selection
    decreases tiles.len(),
{
    if tiles.len() == 0 {
        Selection::Unselected
    } else if in_select_footprint(cx, cy, tiles[0].x as int, tiles[0].y as int, radius) {
        Selection::Selected(tiles[0].coords)
    } else {
        scan_tiles(tiles.drop_first(), cx, cy, radius)
    }
}

/// The selection one cursor sample leads to. A held selection is sticky: it
/// is re-checked first, against its own oversized footprint only, and other
/// tiles are considered only once it is gone.
pub open spec fn next_selection(
    prev: Selection,
    tiles: Seq<Hex>,
    cx: int,
    cy: int,
    radius: int,
) -> Selection {
    match prev {
        Selection::Selected(c) => if retains(tiles, c, cx, cy, radius) {
            Selection::Selected(c)
        } else {
            scan_tiles(tiles, cx, cy, radius)
        },
        Selection::Unselected => scan_tiles(tiles, cx, cy, radius),
    }
}

/// Selector stickiness: while the cursor stays inside the retaining
/// footprint of some tile carrying the selected address, an evaluation keeps
/// that selection, whatever other tiles' footprints also hold the cursor.
pub proof fn lemma_selection_sticky(
    tiles: Seq<Hex>,
    c: HexCoords,
    cx: int,
    cy: int,
    radius: int,
)
    requires
        retains(tiles, c, cx, cy, radius),
    ensures
        next_selection(Selection::Selected(c), tiles, cx, cy, radius) == Selection::Selected(c),
{
}

/// A scan over tiles none of whose capturing footprints hold the cursor
/// selects nothing.
pub proof fn lemma_scan_no_hit(tiles: Seq<Hex>, cx: int, cy: int, radius: int)
    requires
        forall|i: int|
            0 <= i < tiles.len() ==> !in_select_footprint(
                cx,
                cy,
                (#[trigger] tiles[i]).x as int,
                tiles[i].y as int,
                radius,
            ),
    ensures
        scan_tiles(tiles, cx, cy, radius) == Selection::Unselected,
    decreases tiles.len(),
{
    if tiles.len() > 0 {
        let rest = tiles.drop_first();
        assert forall|i: int|
            0 <= i < rest.len() implies !in_select_footprint(
            cx,
            cy,
            (#[trigger] rest[i]).x as int,
            rest[i].y as int,
            radius,
        ) by {
            assert(rest[i] == tiles[i + 1]);
        };
        lemma_scan_no_hit(rest, cx, cy, radius);
    }
}

/// A scan settles on the first tile, in generation order, whose capturing
/// footprint holds the cursor.
pub proof fn lemma_scan_first_hit(tiles: Seq<Hex>, cx: int, cy: int, radius: int, i: int)
    requires
        0 <= i < tiles.len(),
        in_select_footprint(cx, cy, tiles[i].x as int, tiles[i].y as int, radius),
        forall|j: int|
            0 <= j < i ==> !in_select_footprint(
                cx,
                cy,
                (#[trigger] tiles[j]).x as int,
                tiles[j].y as int,
                radius,
            ),
    ensures
        scan_tiles(tiles, cx, cy, radius) == Selection::Selected(tiles[i].coords),
    decreases i,
{
    if i > 0 {
        let rest = tiles.drop_first();
        assert forall|j: int|
            0 <= j < i - 1 implies !in_select_footprint(
            cx,
            cy,
            (#[trigger] rest[j]).x as int,
            rest[j].y as int,
            radius,
        ) by {
            assert(rest[j] == tiles[j + 1]);
        };
        assert(rest[i - 1] == tiles[i]);
        lemma_scan_first_hit(rest, cx, cy, radius, i - 1);
    }
}

/// Whatever a scan selects is a listed tile whose capturing footprint holds
/// the cursor; so after the held selection is gone, an evaluation either
/// selects a tile under the cursor or nothing at all.
pub proof fn lemma_scan_selects_hit(tiles: Seq<Hex>, cx: int, cy: int, radius: int)
    ensures
        scan_tiles(tiles, cx, cy, radius) == Selection::Unselected || exists|i: int|
            0 <= i < tiles.len() && scan_tiles(tiles, cx, cy, radius) == Selection::Selected(
                (#[trigger] tiles[i]).coords,
            ) && in_select_footprint(cx, cy, tiles[i].x as int, tiles[i].y as int, radius),
    decreases tiles.len(),
{
    if tiles.len() > 0 {
        if in_select_footprint(cx, cy, tiles[0].x as int, tiles[0].y as int, radius) {
            assert(scan_tiles(tiles, cx, cy, radius) == Selection::Selected(tiles[0].coords));
        } else {
            let rest = tiles.drop_first();
            lemma_scan_selects_hit(rest, cx, cy, radius);
            if scan_tiles(rest, cx, cy, radius) != Selection::Unselected {
                let i = choose|i: int|
                    0 <= i < rest.len() && scan_tiles(rest, cx, cy, radius)
                        == Selection::Selected((#[trigger] rest[i]).coords)
                        && in_select_footprint(cx, cy, rest[i].x as int, rest[i].y as int, radius);
                assert(rest[i] == tiles[i + 1]);
            }
        }
    }
}

/// Keeps the at-most-one selected tile across frames.
pub struct TileSelector {
    pub selection: Selection,
}

impl TileSelector {
    /// A selector that starts out with no tile selected.
    pub fn new() -> (r: TileSelector)
        ensures
            r.selection == Selection::Unselected,
    {
        TileSelector { selection: Selection::Unselected }
    }

    /// One per-frame evaluation against the live tiles and cursor sample.
    ///
    /// The bounds are machine limits: they keep the footprint arithmetic
    /// within sixty-four bits.
    pub fn update(&mut self, tiles: &Vec<Hex>, cx: i64, cy: i64, radius: i64)
        requires
            0 < radius <= MAX_WORLD,
            -MAX_WORLD <= cx <= MAX_WORLD,
            -MAX_WORLD <= cy <= MAX_WORLD,
            forall|i: int|
                0 <= i < tiles@.len() ==> -MAX_WORLD <= (#[trigger] tiles@[i]).x <= MAX_WORLD
                    && -MAX_WORLD <= tiles@[i].y <= MAX_WORLD,
        ensures
            final(self).selection == next_selection(
                old(self).selection,
                tiles@,
                cx as int,
                cy as int,
                radius as int,
            ),
    {
        if let Selection::Selected(c) = self.selection {
            let mut i: usize = 0;
            while i < tiles.len()
                invariant
                    0 < radius <= MAX_WORLD,
                    -MAX_WORLD <= cx <= MAX_WORLD,
                    -MAX_WORLD <= cy <= MAX_WORLD,
                    forall|j: int|
                        0 <= j < tiles@.len() ==> -MAX_WORLD <= (#[trigger] tiles@[j]).x
                            <= MAX_WORLD && -MAX_WORLD <= tiles@[j].y <= MAX_WORLD,
                    i <= tiles@.len(),
                    self.selection == Selection::Selected(c),
                    old(self).selection == Selection::Selected(c),
                    forall|j: int|
                        0 <= j < i ==> !((#[trigger] tiles@[j]).coords == c && in_retain_footprint(
                            cx as int,
                            cy as int,
                            tiles@[j].x as int,
                            tiles@[j].y as int,
                            radius as int,
                        )),
                decreases tiles@.len() - i,
            {
                let t = tiles[i];
                if t.coords.is_same(c) && in_retain_box(cx, cy, t.x, t.y, radius) {
                    proof {
                        assert(tiles@[i as int].coords == c && in_retain_footprint(
                            cx as int,
                            cy as int,
                            tiles@[i as int].x as int,
                            tiles@[i as int].y as int,
                            radius as int,
                        ));
                        assert(retains(tiles@, c, cx as int, cy as int, radius as int));
                    }
                    return ;
                }
                i += 1;
            }
            proof {
                assert(!retains(tiles@, c, cx as int, cy as int, radius as int));
            }
        }
        self.selection = Selection::Unselected;
        let ghost all = tiles@;
        proof {
            assert(all.skip(0) =~= all);
        }
        let mut i: usize = 0;
        while i < tiles.len()
            invariant
                0 < radius <= MAX_WORLD,
                -MAX_WORLD <= cx <= MAX_WORLD,
                -MAX_WORLD <= cy <= MAX_WORLD,
                forall|j: int|
                    0 <= j < tiles@.len() ==> -MAX_WORLD <= (#[trigger] tiles@[j]).x <= MAX_WORLD
                        && -MAX_WORLD <= tiles@[j].y <= MAX_WORLD,
                i <= tiles@.len(),
                all == tiles@,
                next_selection(
                    old(self).selection,
                    tiles@,
                    cx as int,
                    cy as int,
                    radius as int,
                ) == scan_tiles(all, cx as int, cy as int, radius as int),
                scan_tiles(all, cx as int, cy as int, radius as int) == scan_tiles(
                    all.skip(i as int),
                    cx as int,
                    cy as int,
                    radius as int,
                ),
                self.selection == Selection::Unselected,
            decreases tiles@.len() - i,
        {
            let t = tiles[i];
            proof {
                assert(all.skip(i as int)[0] == all[i as int]);
            }
            if in_select_box(cx, cy, t.x, t.y, radius) {
                self.selection = Selection::Selected(t.coords);
                return ;
            }
            proof {
                assert(all.skip(i as int).drop_first() =~= all.skip(i as int + 1));
            }
            i += 1;
        }
        proof {
            assert(all.skip(all.len() as int).len() == 0);
        }
    }
}

/// Whether the cursor falls within the capturing footprint of a tile.
fn in_select_box(cx: i64, cy: i64, hx: i64, hy: i64, radius: i64) -> (r: bool)
    requires
        0 < radius <= MAX_WORLD,
        -MAX_WORLD <= cx <= MAX_WORLD,
        -MAX_WORLD <= cy <= MAX_WORLD,
        -MAX_WORLD <= hx <= MAX_WORLD,
        -MAX_WORLD <= hy <= MAX_WORLD,
    ensures
        r == in_select_footprint(cx as int, cy as int, hx as int, hy as int, radius as int),
{
    let dx: i64 = if cx >= hx {
        cx - hx
    } else {
        hx - cx
    };
    let dy: i64 = if cy >= hy {
        cy - hy
    } else {
        hy - cy
    };
    5 * dx < 4 * radius && 5 * dy < 4 * radius
}

/// Whether the cursor falls within the retaining footprint of a tile.
fn in_retain_box(cx: i64, cy: i64, hx: i64, hy: i64, radius: i64) -> (r: bool)
    requires
        0 < radius <= MAX_WORLD,
        -MAX_WORLD <= cx <= MAX_WORLD,
        -MAX_WORLD <= cy <= MAX_WORLD,
        -MAX_WORLD <= hx <= MAX_WORLD,
        -MAX_WORLD <= hy <= MAX_WORLD,
    ensures
        r == in_retain_footprint(cx as int, cy as int, hx as int, hy as int, radius as int),
{
    let dx: i64 = if cx >= hx {
        cx - hx
    } else {
        hx - cx
    };
    let dy: i64 = if cy >= hy {
        cy - hy
    } else {
        hy - cy
    };
    5 * dx < 4 * radius && 10 * dy < 9 * radius
}

} // verus!
