use hex_grid::Hex;
use hex_grid::HexCoords;
use hex_grid::Selection;
use hex_grid::TileSelector;
use hex_grid::generate;

// One world unit is a thousandth of the rendered unit, so a tile radius of
// twenty world units is 20_000, the horizontal lattice unit is 30_000
// (three halves of the radius) and the vertical one 17_320 (the radius
// scaled by the hexagon ratio, about 0.866).
const RADIUS: i64 = 20_000;
const X_UNIT: i64 = 30_000;
const Y_UNIT: i64 = 17_320;

fn board(radius: u32) -> Vec<Hex> {
    generate(radius)
        .iter()
        .map(|(c, p)| Hex { coords: *c, x: p.x * X_UNIT, y: p.y * Y_UNIT })
        .collect()
}

fn selected(selector: &TileSelector) -> Option<HexCoords> {
    match selector.selection {
        Selection::Selected(c) => Some(c),
        Selection::Unselected => None,
    }
}

#[test]
fn cursor_at_a_tile_center_selects_it() {
    let tiles = board(1);
    let mut selector = TileSelector::new();
    assert!(selected(&selector).is_none());
    // exactly at the center of the top ring-one tile
    selector.update(&tiles, 0, 2 * Y_UNIT, RADIUS);
    let c = selected(&selector).unwrap();
    assert!(c.is_same(HexCoords { level: 1, position: 0, offset: 0 }));
}

#[test]
fn selection_sticks_inside_the_oversized_footprint() {
    let tiles = board(1);
    let mut selector = TileSelector::new();
    selector.update(&tiles, 0, 0, RADIUS);
    let center = HexCoords { level: 0, position: 0, offset: 0 };
    assert!(selected(&selector).unwrap().is_same(center));

    // this point is still inside the center tile's retaining box
    // (|dx| < 16_000, |dy| < 18_000), yet already inside the capturing box
    // of the top-right neighbour at (30_000, 17_320)
    selector.update(&tiles, 15_000, 10_000, RADIUS);
    assert!(selected(&selector).unwrap().is_same(center));

    // and it stays put under jitter around that point
    selector.update(&tiles, 14_500, 10_500, RADIUS);
    assert!(selected(&selector).unwrap().is_same(center));
}

#[test]
fn selection_releases_once_the_cursor_leaves_the_footprint() {
    let tiles = board(1);
    let mut selector = TileSelector::new();
    selector.update(&tiles, 0, 0, RADIUS);
    assert!(selected(&selector).unwrap().is_same(HexCoords { level: 0, position: 0, offset: 0 }));

    // far above the center tile's retaining box, inside the top tile's
    // capturing box around (0, 34_640): the selection moves there at once
    selector.update(&tiles, 15_000, 40_000, RADIUS);
    assert!(selected(&selector).unwrap().is_same(HexCoords { level: 1, position: 0, offset: 0 }));

    // off the board entirely: no tile is selected
    selector.update(&tiles, 500_000, 500_000, RADIUS);
    assert!(selected(&selector).is_none());
}

#[test]
fn scan_picks_the_first_tile_in_generation_order() {
    // a cursor point inside the capturing boxes of two tiles at once:
    // between the center and the top-right tile, nearer the overlap's middle
    let tiles = board(1);
    let mut selector = TileSelector::new();
    selector.update(&tiles, 15_000, 9_000, RADIUS);
    // the center precedes every ring tile in generation order
    assert!(selected(&selector).unwrap().is_same(HexCoords { level: 0, position: 0, offset: 0 }));
}

#[test]
fn reselection_within_the_same_frame_after_release() {
    let tiles = board(2);
    let mut selector = TileSelector::new();
    // select the top tile of ring two
    selector.update(&tiles, 0, 4 * Y_UNIT, RADIUS);
    let top = HexCoords { level: 2, position: 0, offset: 0 };
    assert!(selected(&selector).unwrap().is_same(top));
    // jump straight to the center: the old selection is dropped and the
    // center is picked up in the same evaluation
    selector.update(&tiles, 0, 0, RADIUS);
    assert!(selected(&selector).unwrap().is_same(HexCoords { level: 0, position: 0, offset: 0 }));
}

#[test]
fn empty_board_never_selects() {
    let tiles: Vec<Hex> = Vec::new();
    let mut selector = TileSelector::new();
    selector.update(&tiles, 0, 0, RADIUS);
    assert!(selected(&selector).is_none());
}
