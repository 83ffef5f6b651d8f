use vstd::prelude::*;

verus! {

/// Logical address of one tile of the board.
///
/// `level` is the ring index, counted from the single center tile at
/// `level == 0`; ring `k >= 1` holds `6 * k` tiles. `position` names one of
/// the six sextants of the ring and `offset` the place along that sextant's
/// edge; both are meaningful only on `level >= 1`. Two addresses denote the
/// same tile exactly when all three fields are equal.
#[derive(Clone, Copy, Debug, PartialEq, Eq, Structural)]
pub struct HexCoords {
    pub level: u32,
    pub position: u32,
    pub offset: u32,
}

impl HexCoords {
    /// The addressing invariant: the center is written `(0, 0, 0)`, and a
    /// ring tile has a sextant below six and an offset below its level.
    pub open spec fn wf(self) -> bool {
        if self.level == 0 {
            self.position == 0 && self.offset == 0
        } else {
            self.position < 6 && self.offset < self.level
        }
    }

    /// The address denotes a tile of a board of the given radius.
    pub open spec fn in_grid(self, radius: u32) -> bool {
        self.wf() && self.level <= radius
    }

    /// The address of the center tile.
    pub fn new() -> (r: HexCoords)
        ensures
            r == (HexCoords { level: 0, position: 0, offset: 0 }),
    {
        HexCoords { level: 0, position: 0, offset: 0 }
    }

    /// Builds an address from its three fields, which must satisfy the
    /// addressing invariant.
    pub fn make(level: u32, position: u32, offset: u32) -> (r: HexCoords)
        requires
            (HexCoords { level, position, offset }).wf(),
        ensures
            r == (HexCoords { level, position, offset }),
    {
        HexCoords { level, position, offset }
    }

    /// Whether the two addresses denote the same tile: all three fields agree.
    pub fn is_same(self, other: HexCoords) -> (r: bool)
        ensures
            r <==> self == other,
    {
        self.level == other.level && self.position == other.position && self.offset
            == other.offset
    }
}

} // verus!
