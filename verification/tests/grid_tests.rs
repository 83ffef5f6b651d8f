use hex_grid::HexCoords;
use hex_grid::generate;
use hex_grid::position_of;

fn coords(level: u32, position: u32, offset: u32) -> HexCoords {
    HexCoords { level, position, offset }
}

#[test]
fn radius_zero_yields_only_the_center() {
    let board = generate(0);
    assert_eq!(board.len(), 1);
    assert!(board[0].0.is_same(coords(0, 0, 0)));
    assert_eq!(board[0].1.x, 0);
    assert_eq!(board[0].1.y, 0);
}

#[test]
fn radius_one_yields_seven_tiles() {
    let board = generate(1);
    assert_eq!(board.len(), 7);
    assert!(board[0].0.is_same(coords(0, 0, 0)));
    for s in 0..6u32 {
        assert!(board[1 + s as usize].0.is_same(coords(1, s, 0)));
    }
}

#[test]
fn tile_count_matches_ring_formula() {
    for radius in 0..10u32 {
        let board = generate(radius);
        assert_eq!(board.len() as u32, 1 + 3 * radius * (radius + 1));
    }
    // the board the game opens with
    assert_eq!(generate(7).len(), 169);
}

#[test]
fn all_coordinates_distinct_and_valid() {
    let board = generate(4);
    for (c, _) in board.iter() {
        if c.level == 0 {
            assert_eq!(c.position, 0);
            assert_eq!(c.offset, 0);
        } else {
            assert!(c.level <= 4);
            assert!(c.position < 6);
            assert!(c.offset < c.level);
        }
    }
    for i in 0..board.len() {
        for j in 0..i {
            assert!(!board[i].0.is_same(board[j].0));
        }
    }
}

#[test]
fn generation_order_walks_rings_sextant_by_sextant() {
    let board = generate(2);
    let expected = [
        coords(0, 0, 0),
        coords(1, 0, 0),
        coords(1, 1, 0),
        coords(1, 2, 0),
        coords(1, 3, 0),
        coords(1, 4, 0),
        coords(1, 5, 0),
        coords(2, 0, 0),
        coords(2, 0, 1),
        coords(2, 1, 0),
        coords(2, 1, 1),
        coords(2, 2, 0),
        coords(2, 2, 1),
        coords(2, 3, 0),
        coords(2, 3, 1),
        coords(2, 4, 0),
        coords(2, 4, 1),
        coords(2, 5, 0),
        coords(2, 5, 1),
    ];
    assert_eq!(board.len(), expected.len());
    for (entry, want) in board.iter().zip(expected.iter()) {
        assert!(entry.0.is_same(*want));
    }
}

#[test]
fn ring_one_lattice_positions() {
    // ring one walked as a hexagon: top, then clockwise
    let expected = [(0, 2), (1, 1), (1, -1), (0, -2), (-1, -1), (-1, 1)];
    for s in 0..6u32 {
        let p = position_of(coords(1, s, 0));
        assert_eq!((p.x, p.y), expected[s as usize]);
    }
}

#[test]
fn edge_tile_lattice_positions() {
    // one step along the top edge of ring two
    let p = position_of(coords(2, 0, 1));
    assert_eq!((p.x, p.y), (1, 3));
    // generated pairs carry the same positions
    let board = generate(2);
    for (c, pos) in board.iter() {
        let again = position_of(*c);
        assert_eq!(pos.x, again.x);
        assert_eq!(pos.y, again.y);
    }
}

#[test]
fn no_two_tiles_share_a_position() {
    let board = generate(4);
    for i in 0..board.len() {
        for j in 0..i {
            assert!(board[i].1.x != board[j].1.x || board[i].1.y != board[j].1.y);
        }
    }
}

#[test]
fn generation_is_deterministic() {
    let a = generate(3);
    let b = generate(3);
    assert_eq!(a.len(), b.len());
    for (x, y) in a.iter().zip(b.iter()) {
        assert!(x.0.is_same(y.0));
        assert_eq!(x.1.x, y.1.x);
        assert_eq!(x.1.y, y.1.y);
    }
}
