//! A hexagonal game board addressed by concentric rings.
//!
//! Tiles are identified by a ring index, a sextant of that ring, and an
//! offset along the sextant's edge. The crate generates every address of a
//! board of a given radius together with its place on an integer layout
//! lattice, derives the six neighbours of any address by arithmetic alone,
//! and keeps a sticky tile selection driven by a cursor sample per frame.

pub mod coords;
pub mod grid;
pub mod layout;
pub mod neighbours;
pub mod selector;

pub use crate::coords::HexCoords;
pub use crate::grid::generate;
pub use crate::layout::LatticePos;
pub use crate::layout::position_of;
pub use crate::selector::Hex;
pub use crate::selector::Selection;
pub use crate::selector::TileSelector;
