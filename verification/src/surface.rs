//! The display surface: a rectangle of tiles that a frame is painted on.

use vstd::prelude::*;
use crate::grid::{
    GridError, cell_count, cell_index, filled, flat_index, in_extent,
    lemma_flat_index_in_range, lemma_flat_index_injective, valid_dimensions,
};
use crate::point::Point;
use crate::tile::Tile;

verus! {

/// What a `Surface` is, mathematically: its dimensions, the tile it is
/// cleared with, and the tile shown at each of its cells.
pub struct SurfaceView {
    pub width: int,
    pub height: int,
    pub clear_tile: Tile,
    pub cells: Map<Point, Tile>,
}

impl SurfaceView {
    /// Whether `p` is a cell of this surface.
    pub open spec fn contains(self, p: Point) -> bool {
        in_extent(self.width, self.height, p)
    }

    /// The surface is a non-empty rectangle that shows a tile at each of
    /// its cells and nowhere else.
    pub open spec fn wf(self) -> bool {
        &&& valid_dimensions(self.width, self.height)
        &&& forall|p: Point| #[trigger] self.cells.dom().contains(p) <==> self.contains(p)
    }

    /// The tile shown at `p`.
    pub open spec fn tile_at(self, p: Point) -> Tile
        recommends
            self.contains(p),
    {
        self.cells[p]
    }

    /// A surface of the given dimensions that shows `clear_tile` everywhere.
    pub open spec fn blank(width: int, height: int, clear_tile: Tile) -> SurfaceView {
        SurfaceView {
            width,
            height,
            clear_tile,
            cells: Map::new(|p: Point| in_extent(width, height, p), |p: Point| clear_tile),
        }
    }

    /// This surface with every cell reset to its clear tile.
    pub open spec fn cleared(self) -> SurfaceView {
        SurfaceView::blank(self.width, self.height, self.clear_tile)
    }

    /// This surface with `tile` shown at `p`.
    pub open spec fn put(self, p: Point, tile: Tile) -> SurfaceView
        recommends
            self.contains(p),
    {
        SurfaceView { cells: self.cells.insert(p, tile), ..self }
    }
}

/// A rectangle of tiles, stored row by row.
pub struct Surface {
    width: i32,
    height: i32,
    clear_tile: Tile,
    tiles: Vec<Tile>,
}

impl View for Surface {
    type V = SurfaceView;

    closed spec fn view(&self) -> SurfaceView {
        SurfaceView {
            width: self.width as int,
            height: self.height as int,
            clear_tile: self.clear_tile,
            cells: Map::new(
                |p: Point| in_extent(self.width as int, self.height as int, p),
                |p: Point| self.tiles@[flat_index(self.width as int, p)],
            ),
        }
    }
}

impl Surface {
    /// The storage holds exactly one tile per cell of a non-empty
    /// rectangle. `new` establishes this and every method keeps it.
    pub closed spec fn wf(&self) -> bool {
        &&& valid_dimensions(self.width as int, self.height as int)
        &&& self.tiles@.len() == self.width * self.height
    }

    /// A well-formed surface shows a tile at each of its cells and nowhere
    /// else.
    pub proof fn lemma_view_wf(&self)
        requires
            self.wf(),
        ensures
            self@.wf(),
    {
    }

    /// Builds a `width` by `height` surface that shows `clear_tile` in every
    /// cell. Dimensions that are not positive, or whose product exceeds
    /// `usize::MAX`, are refused with `ConfigError`.
    pub fn new(width: i32, height: i32, clear_tile: Tile) -> (r: Result<Surface, GridError>)
        ensures
            r is Ok <==> valid_dimensions(width as int, height as int),
            r is Ok ==> r->Ok_0@ == SurfaceView::blank(width as int, height as int, clear_tile),
            r is Ok ==> r->Ok_0.wf() && r->Ok_0@.wf(),
            r is Err ==> r->Err_0 == GridError::ConfigError,
    {
        let size: usize = match cell_count(width, height) {
            Ok(n) => n,
            Err(e) => {
                return Err(e);
            },
        };
        let surface = Surface { width, height, clear_tile, tiles: filled(clear_tile, size) };
        proof {
            assert forall|p: Point| in_extent(width as int, height as int, p) implies 0
                <= flat_index(width as int, p) < size by {
                lemma_flat_index_in_range(width as int, height as int, p);
            }
            assert(surface@.cells =~= SurfaceView::blank(
                width as int,
                height as int,
                clear_tile,
            ).cells);
        }
        Ok(surface)
    }

    /// Number of columns.
    pub fn width(&self) -> (w: i32)
        ensures
            w == self@.width,
    {
        self.width
    }

    /// Number of rows.
    pub fn height(&self) -> (h: i32)
        ensures
            h == self@.height,
    {
        self.height
    }

    /// The tile that `clear` resets every cell to.
    pub fn clear_tile(&self) -> (t: Tile)
        ensures
            t == self@.clear_tile,
    {
        self.clear_tile
    }

    /// The tile shown at `p`, or `OutOfBounds` when `p` is not a cell of
    /// this surface.
    pub fn get_tile(&self, p: Point) -> (r: Result<Tile, GridError>)
        requires
            self.wf(),
        ensures
            r is Ok <==> self@.contains(p),
            r is Ok ==> r->Ok_0 == self@.tile_at(p),
            r is Err ==> r->Err_0 == GridError::OutOfBounds,
    {
        match cell_index(self.width, self.height, p) {
            Ok(i) => Ok(self.tiles[i]),
            Err(e) => Err(e),
        }
    }

    /// Resets every cell to the clear tile.
    pub fn clear(&mut self)
        requires
            old(self).wf(),
        ensures
            final(self).wf(),
            final(self)@ == old(self)@.cleared(),
    {
        let n: usize = self.tiles.len();
        self.tiles = filled(self.clear_tile, n);
        proof {
            assert forall|p: Point| in_extent(self.width as int, self.height as int, p) implies 0
                <= flat_index(self.width as int, p) < n by {
                lemma_flat_index_in_range(self.width as int, self.height as int, p);
            }
            assert(self@.cells =~= old(self)@.cleared().cells);
        }
    }

    /// Shows `tile` at `p` and leaves every other cell as it was. When `p`
    /// is not a cell of this surface nothing changes and `OutOfBounds` is
    /// returned.
    pub fn put_tile(&mut self, p: Point, tile: Tile) -> (r: Result<(), GridError>)
        requires
            old(self).wf(),
        ensures
            final(self).wf(),
            r is Ok <==> old(self)@.contains(p),
            r is Ok ==> final(self)@ == old(self)@.put(p, tile),
            r is Err ==> r->Err_0 == GridError::OutOfBounds && final(self)@ == old(self)@,
    {
        match cell_index(self.width, self.height, p) {
            Ok(i) => {
                self.tiles.set(i, tile);
                proof {
                    let after = self@.cells;
                    let expected = old(self)@.put(p, tile).cells;
                    assert forall|q: Point| after.dom().contains(q) implies after[q]
                        == expected[q] by {
                        lemma_flat_index_in_range(self.width as int, self.height as int, q);
                        if q != p {
                            lemma_flat_index_injective(
                                self.width as int,
                                self.height as int,
                                q,
                                p,
                            );
                        }
                    }
                    assert(after =~= expected);
                }
                Ok(())
            },
            Err(e) => Err(e),
        }
    }
}

} // verus!
