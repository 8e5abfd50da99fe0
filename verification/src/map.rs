//! The tile map: a fixed-size, row-major grid of terrain cells with two
//! parallel bitmaps for what is in view and what has been seen.

use vstd::prelude::*;
use crate::grid::{
    GridError, cell_count, cell_index, filled, flat_index, in_extent,
    lemma_flat_index_in_range, lemma_flat_index_injective, valid_dimensions,
};
use crate::point::Point;

verus! {

/// Terrain of one map cell.
#[derive(Clone, Copy, Debug, PartialEq, Eq, Structural)]
pub enum TileType {
    Wall,
    Floor,
}

/// What a `TileMap` is, mathematically.
pub struct TileMapView {
    pub width: int,
    pub height: int,
    pub tiles: Seq<TileType>,
    pub visible_tiles: Seq<bool>,
    pub revealed_tiles: Seq<bool>,
}

impl TileMapView {
    /// All three sequences hold one entry per cell of a non-empty grid.
    pub open spec fn wf(self) -> bool {
        &&& valid_dimensions(self.width, self.height)
        &&& self.tiles.len() == self.width * self.height
        &&& self.visible_tiles.len() == self.width * self.height
        &&& self.revealed_tiles.len() == self.width * self.height
    }

    /// The map that `TileMap::new` builds: floor everywhere, nothing in
    /// view, nothing seen.
    pub open spec fn blank(width: int, height: int) -> TileMapView {
        TileMapView {
            width,
            height,
            tiles: Seq::new((width * height) as nat, |i: int| TileType::Floor),
            visible_tiles: Seq::new((width * height) as nat, |i: int| false),
            revealed_tiles: Seq::new((width * height) as nat, |i: int| false),
        }
    }

    /// Whether `p` is a cell of this map.
    pub open spec fn contains(self, p: Point) -> bool {
        in_extent(self.width, self.height, p)
    }

    /// Storage index of the cell `p`.
    pub open spec fn index_of(self, p: Point) -> int {
        flat_index(self.width, p)
    }
}

/// A fixed-size grid of terrain cells, stored row by row.
pub struct TileMap {
    tiles: Vec<TileType>,
    width: i32,
    height: i32,
    visible_tiles: Vec<bool>,
    revealed_tiles: Vec<bool>,
}

impl View for TileMap {
    type V = TileMapView;

    closed spec fn view(&self) -> TileMapView {
        TileMapView {
            width: self.width as int,
            height: self.height as int,
            tiles: self.tiles@,
            visible_tiles: self.visible_tiles@,
            revealed_tiles: self.revealed_tiles@,
        }
    }
}

impl TileMap {
    #[verifier::type_invariant]
    spec fn inv(self) -> bool {
        self@.wf()
    }

    /// Builds a `width` by `height` map of floor cells with every
    /// visibility flag cleared. Dimensions that are not positive, or whose
    /// product exceeds `usize::MAX`, are refused with `ConfigError`.
    pub fn new(width: i32, height: i32) -> (r: Result<TileMap, GridError>)
        ensures
            r is Ok <==> valid_dimensions(width as int, height as int),
            r is Ok ==> r->Ok_0@ == TileMapView::blank(width as int, height as int),
            r is Ok ==> r->Ok_0@.wf(),
            r is Err ==> r->Err_0 == GridError::ConfigError,
    {
        let size: usize = match cell_count(width, height) {
            Ok(n) => n,
            Err(e) => {
                return Err(e);
            },
        };
        Ok(
            TileMap {
                tiles: filled(TileType::Floor, size),
                width,
                height,
                visible_tiles: filled(false, size),
                revealed_tiles: filled(false, size),
            },
        )
    }

    /// Number of columns.
    pub fn width(&self) -> (w: i32)
        ensures
            w == self@.width,
            self@.wf(),
    {
        proof {
            use_type_invariant(self);
        }
        self.width
    }

    /// Number of rows.
    pub fn height(&self) -> (h: i32)
        ensures
            h == self@.height,
            self@.wf(),
    {
        proof {
            use_type_invariant(self);
        }
        self.height
    }

    /// The terrain, row by row.
    pub fn tiles(&self) -> (t: &Vec<TileType>)
        ensures
            t@ == self@.tiles,
            self@.wf(),
    {
        proof {
            use_type_invariant(self);
        }
        &self.tiles
    }

    /// Which cells are in view, row by row.
    pub fn visible_tiles(&self) -> (t: &Vec<bool>)
        ensures
            t@ == self@.visible_tiles,
            self@.wf(),
    {
        proof {
            use_type_invariant(self);
        }
        &self.visible_tiles
    }

    /// Which cells have been seen, row by row.
    pub fn revealed_tiles(&self) -> (t: &Vec<bool>)
        ensures
            t@ == self@.revealed_tiles,
            self@.wf(),
    {
        proof {
            use_type_invariant(self);
        }
        &self.revealed_tiles
    }

    /// Storage index of the cell at `point`, or `OutOfBounds` when `point`
    /// is not a cell of this map.
    pub fn xy_idx(&self, point: Point) -> (r: Result<usize, GridError>)
        ensures
            r is Ok <==> self@.contains(point),
            r is Ok ==> r->Ok_0 == self@.index_of(point) && r->Ok_0 < self@.tiles.len(),
            r is Err ==> r->Err_0 == GridError::OutOfBounds,
            self@.wf(),
    {
        proof {
            use_type_invariant(self);
        }
        cell_index(self.width, self.height, point)
    }
}

/// A freshly built map has one entry per cell in each of its three
/// sequences; every cell is floor, and no cell is in view or has been seen.
pub proof fn lemma_blank_map(width: int, height: int)
    requires
        valid_dimensions(width, height),
    ensures
        TileMapView::blank(width, height).wf(),
        TileMapView::blank(width, height).tiles.len() == width * height,
        TileMapView::blank(width, height).visible_tiles.len() == width * height,
        TileMapView::blank(width, height).revealed_tiles.len() == width * height,
        forall|i: int|
            0 <= i < width * height ==> #[trigger] TileMapView::blank(width, height).tiles[i]
                == TileType::Floor,
        forall|i: int|
            0 <= i < width * height ==> !(#[trigger] TileMapView::blank(
                width,
                height,
            ).visible_tiles[i]),
        forall|i: int|
            0 <= i < width * height ==> !(#[trigger] TileMapView::blank(
                width,
                height,
            ).revealed_tiles[i]),
{
    assert(width * height > 0) by (nonlinear_arith)
        requires
            width > 0,
            height > 0,
    ;
}

/// The index of a cell of the map is `y * width + x`, and it is a valid
/// position in each of the map's sequences.
pub proof fn lemma_index_in_range(map: TileMapView, p: Point)
    requires
        map.wf(),
        map.contains(p),
    ensures
        map.index_of(p) == p.y * map.width + p.x,
        0 <= map.index_of(p) < map.tiles.len(),
        map.index_of(p) < map.visible_tiles.len(),
        map.index_of(p) < map.revealed_tiles.len(),
{
    lemma_flat_index_in_range(map.width, map.height, p);
}

/// Two different cells of a map never share a storage index.
pub proof fn lemma_index_injective(map: TileMapView, p: Point, q: Point)
    requires
        map.wf(),
        map.contains(p),
        map.contains(q),
        p != q,
    ensures
        map.index_of(p) != map.index_of(q),
{
    lemma_flat_index_injective(map.width, map.height, p, q);
}

} // verus!
