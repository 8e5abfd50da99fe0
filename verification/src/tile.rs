//! What one display cell shows, and how an entity asks to be shown.

use vstd::prelude::*;
use vstd::std_specs::convert::FromSpecImpl;

verus! {

/// An opaque colour with eight bits per channel.
#[derive(Clone, Copy, Debug, PartialEq, Eq, Structural)]
pub struct Color {
    pub r: u8,
    pub g: u8,
    pub b: u8,
}

/// One display cell: a glyph drawn in `fg_color` over `bg_color`.
#[derive(Clone, Copy, Debug, PartialEq, Eq, Structural)]
pub struct Tile {
    pub glyph: char,
    pub bg_color: Color,
    pub fg_color: Color,
}

/// How an entity is drawn. It is placed on the display by the `Point` that
/// accompanies it.
#[derive(Clone, Copy, Debug, PartialEq, Eq, Structural)]
pub struct Renderable {
    pub fg_color: Color,
    pub bg_color: Color,
    pub glyph: char,
}

/// The tile that shows bare ground: a middle dot in dim grey on black.
pub open spec fn ground_tile() -> Tile {
    Tile {
        glyph: '\u{b7}',
        bg_color: Color { r: 0, g: 0, b: 0 },
        fg_color: Color { r: 77, g: 77, b: 77 },
    }
}

/// The tile that draws an entity with the appearance `r`.
pub open spec fn tile_of(r: Renderable) -> Tile {
    Tile { glyph: r.glyph, bg_color: r.bg_color, fg_color: r.fg_color }
}

/// The ground tile, with which the display is cleared and the map painted.
pub fn clear_tile() -> (t: Tile)
    ensures
        t == ground_tile(),
{
    Tile {
        glyph: '\u{b7}',
        bg_color: Color { r: 0, g: 0, b: 0 },
        fg_color: Color { r: 77, g: 77, b: 77 },
    }
}

impl<'a> From<&'a Renderable> for Tile {
    fn from(value: &'a Renderable) -> (t: Tile) {
        Tile { glyph: value.glyph, bg_color: value.bg_color, fg_color: value.fg_color }
    }
}

impl<'a> FromSpecImpl<&'a Renderable> for Tile {
    open spec fn obeys_from_spec() -> bool {
        true
    }

    open spec fn from_spec(value: &'a Renderable) -> Tile {
        tile_of(*value)
    }
}

} // verus!
