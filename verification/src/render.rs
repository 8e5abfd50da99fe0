//! Painting a frame: the display is cleared, the ground is laid over the
//! map's extent, and every entity is drawn on top at its position.

use vstd::prelude::*;
use crate::grid::GridError;
use crate::map::{TileMap, TileMapView};
use crate::point::Point;
use crate::surface::{Surface, SurfaceView};
use crate::tile::{Renderable, Tile, clear_tile, ground_tile, tile_of};

verus! {

/// Whether a frame can be painted: the map's extent lies on the surface and
/// so does every entity.
pub open spec fn drawable(
    s: SurfaceView,
    map: TileMapView,
    entities: Seq<(Point, Renderable)>,
) -> bool {
    &&& map.width <= s.width
    &&& map.height <= s.height
    &&& forall|i: int| 0 <= i < entities.len() ==> s.contains((#[trigger] entities[i]).0)
}

/// The surface `s` with the ground tile shown at every cell of the map.
pub open spec fn ground_painted(s: SurfaceView, map: TileMapView) -> SurfaceView {
    SurfaceView {
        cells: Map::new(
            |p: Point| s.contains(p),
            |p: Point|
                if map.contains(p) {
                    ground_tile()
                } else {
                    s.cells[p]
                },
        ),
        ..s
    }
}

/// The surface `s` after each entity, first to last, has been drawn at its
/// position.
pub open spec fn overlaid(s: SurfaceView, entities: Seq<(Point, Renderable)>) -> SurfaceView
    decreases entities.len(),
{
    if entities.len() == 0 {
        s
    } else {
        overlaid(s, entities.drop_last()).put(entities.last().0, tile_of(entities.last().1))
    }
}

/// The frame that one render pass leaves on the surface `s`.
pub open spec fn rendered(
    s: SurfaceView,
    map: TileMapView,
    entities: Seq<(Point, Renderable)>,
) -> SurfaceView {
    overlaid(ground_painted(s.cleared(), map), entities)
}

/// The appearance of the last entity of `entities` that stands at `p`, if
/// any entity does.
pub open spec fn topmost(entities: Seq<(Point, Renderable)>, p: Point) -> Option<Renderable>
    decreases entities.len(),
{
    if entities.len() == 0 {
        None
    } else if entities.last().0 == p {
        Some(entities.last().1)
    } else {
        topmost(entities.drop_last(), p)
    }
}

/// What a rendered frame shows at the cell `p`: the last entity standing
/// there, else ground where the map reaches, else the clear tile.
pub open spec fn frame_tile(
    s: SurfaceView,
    map: TileMapView,
    entities: Seq<(Point, Renderable)>,
    p: Point,
) -> Tile {
    match topmost(entities, p) {
        Some(r) => tile_of(r),
        None => if map.contains(p) {
            ground_tile()
        } else {
            s.clear_tile
        },
    }
}

/// Whether every entity stands on the surface.
fn all_on_surface(surface: &Surface, entities: &Vec<(Point, Renderable)>) -> (b: bool)
    ensures
        b <==> forall|i: int| 0 <= i < entities@.len() ==> surface@.contains((#[trigger] entities@[i]).0),
{
    let width: i32 = surface.width();
    let height: i32 = surface.height();
    let mut i: usize = 0;
    while i < entities.len()
        invariant
            i <= entities@.len(),
            width == surface@.width,
            height == surface@.height,
            forall|j: int| 0 <= j < i ==> surface@.contains((#[trigger] entities@[j]).0),
        decreases entities@.len() - i,
    {
        let p: Point = entities[i].0;
        if p.x < 0 || p.x >= width || p.y < 0 || p.y >= height {
            return false;
        }
        i = i + 1;
    }
    true
}

/// Lays the ground tile over the map's extent, column by column.
fn paint_ground(surface: &mut Surface, map: &TileMap)
    requires
        old(surface).wf(),
        map@.width <= old(surface)@.width,
        map@.height <= old(surface)@.height,
    ensures
        final(surface).wf(),
        final(surface)@ == ground_painted(old(surface)@, map@),
{
    let ghost before = surface@;
    let width: i32 = map.width();
    let height: i32 = map.height();
    let ground: Tile = clear_tile();
    proof {
        surface.lemma_view_wf();
    }
    let mut x: i32 = 0;
    while x < width
        invariant
            0 <= x <= width,
            width == map@.width,
            height == map@.height,
            0 < height,
            width <= before.width,
            height <= before.height,
            ground == ground_tile(),
            surface.wf(),
            surface@.wf(),
            surface@.width == before.width,
            surface@.height == before.height,
            surface@.clear_tile == before.clear_tile,
            forall|p: Point|
                before.contains(p) ==> #[trigger] surface@.cells[p] == if map@.contains(p) && p.x
                    < x {
                    ground
                } else {
                    before.cells[p]
                },
        decreases width - x,
    {
        let mut y: i32 = 0;
        while y < height
            invariant
                0 <= x < width,
                0 <= y <= height,
                width == map@.width,
                height == map@.height,
                width <= before.width,
                height <= before.height,
                ground == ground_tile(),
                surface.wf(),
                surface@.wf(),
                surface@.width == before.width,
                surface@.height == before.height,
                surface@.clear_tile == before.clear_tile,
                forall|p: Point|
                    before.contains(p) ==> #[trigger] surface@.cells[p] == if map@.contains(p) && (
                    p.x < x || (p.x == x && p.y < y)) {
                        ground
                    } else {
                        before.cells[p]
                    },
            decreases height - y,
        {
            let ghost prior = surface@;
            let _ = surface.put_tile(Point { x, y }, ground);
            proof {
                surface.lemma_view_wf();
                assert forall|p: Point| before.contains(p) implies #[trigger] surface@.cells[p]
                    == if map@.contains(p) && (p.x < x || (p.x == x && p.y < y + 1)) {
                    ground
                } else {
                    before.cells[p]
                } by {
                    if p != (Point { x, y }) {
                        assert(surface@.cells[p] == prior.cells[p]);
                    }
                }
            }
            y = y + 1;
        }
        x = x + 1;
    }
    proof {
        assert(surface@.cells =~= ground_painted(before, map@).cells);
    }
}

/// Draws each entity at its position, first to last.
fn draw_entities(surface: &mut Surface, entities: &Vec<(Point, Renderable)>)
    requires
        old(surface).wf(),
        forall|i: int|
            0 <= i < entities@.len() ==> old(surface)@.contains((#[trigger] entities@[i]).0),
    ensures
        final(surface).wf(),
        final(surface)@ == overlaid(old(surface)@, entities@),
{
    let ghost before = surface@;
    let mut i: usize = 0;
    while i < entities.len()
        invariant
            i <= entities@.len(),
            surface.wf(),
            surface@.width == before.width,
            surface@.height == before.height,
            surface@ == overlaid(before, entities@.take(i as int)),
            forall|j: int| 0 <= j < entities@.len() ==> before.contains((#[trigger] entities@[j]).0),
        decreases entities@.len() - i,
    {
        let p: Point = entities[i].0;
        let tile: Tile = Tile::from(&entities[i].1);
        proof {
            let next = entities@.take(i + 1);
            assert(next.drop_last() =~= entities@.take(i as int));
            assert(next.last() == entities@[i as int]);
            assert(before.contains(entities@[i as int].0));
        }
        let _ = surface.put_tile(p, tile);
        i = i + 1;
    }
    proof {
        assert(entities@.take(i as int) =~= entities@);
    }
}

/// Paints one frame onto `surface`: every cell is reset to the clear tile,
/// the ground tile is laid over the map's extent, and every entity is drawn
/// at its position, later entities over earlier ones. When the map's extent
/// or an entity does not lie on the surface, nothing is painted and
/// `OutOfBounds` is returned.
pub fn render(surface: &mut Surface, map: &TileMap, entities: &Vec<(Point, Renderable)>) -> (r:
    Result<(), GridError>)
    requires
        old(surface).wf(),
    ensures
        final(surface).wf(),
        r is Ok <==> drawable(old(surface)@, map@, entities@),
        r is Ok ==> final(surface)@ == rendered(old(surface)@, map@, entities@),
        r is Err ==> r->Err_0 == GridError::OutOfBounds && final(surface)@ == old(surface)@,
        final(surface)@.width == old(surface)@.width,
        final(surface)@.height == old(surface)@.height,
        final(surface)@.clear_tile == old(surface)@.clear_tile,
{
    proof {
        lemma_rendered_shape(surface@, map@, entities@);
    }
    if map.width() > surface.width() || map.height() > surface.height() {
        return Err(GridError::OutOfBounds);
    }
    if !all_on_surface(surface, entities) {
        return Err(GridError::OutOfBounds);
    }
    surface.clear();
    paint_ground(surface, map);
    draw_entities(surface, entities);
    Ok(())
}

/// Drawing entities changes neither the dimensions nor the clear tile of a
/// surface, and leaves it showing a tile at exactly the same cells when
/// every entity stands on it.
pub proof fn lemma_overlaid_shape(s: SurfaceView, entities: Seq<(Point, Renderable)>)
    ensures
        overlaid(s, entities).width == s.width,
        overlaid(s, entities).height == s.height,
        overlaid(s, entities).clear_tile == s.clear_tile,
        s.wf() && (forall|i: int| 0 <= i < entities.len() ==> s.contains((#[trigger] entities[i]).0))
            ==> overlaid(s, entities).wf(),
    decreases entities.len(),
{
    if entities.len() > 0 {
        lemma_overlaid_shape(s, entities.drop_last());
        if s.wf() && (forall|i: int| 0 <= i < entities.len() ==> s.contains((#[trigger] entities[i]).0)) {
            let rest = entities.drop_last();
            assert forall|i: int| 0 <= i < rest.len() implies s.contains((#[trigger] rest[i]).0) by {
                assert(rest[i] == entities[i]);
            }
            assert(s.contains(entities[entities.len() - 1].0));
        }
    }
}

/// After entities are drawn, a cell shows the last entity standing on it,
/// or what it showed before if no entity stands there.
pub proof fn lemma_overlaid_cell(s: SurfaceView, entities: Seq<(Point, Renderable)>, p: Point)
    ensures
        overlaid(s, entities).cells[p] == match topmost(entities, p) {
            Some(r) => tile_of(r),
            None => s.cells[p],
        },
    decreases entities.len(),
{
    if entities.len() > 0 {
        lemma_overlaid_cell(s, entities.drop_last(), p);
    }
}

/// An entity that no later entity shares its position with is the topmost
/// one there; and wherever an entity stands, some entity is topmost.
pub proof fn lemma_topmost(entities: Seq<(Point, Renderable)>, i: int)
    requires
        0 <= i < entities.len(),
    ensures
        topmost(entities, entities[i].0) is Some,
        (forall|j: int| i < j < entities.len() ==> (#[trigger] entities[j]).0 != entities[i].0)
            ==> topmost(entities, entities[i].0) == Some(entities[i].1),
    decreases entities.len(),
{
    if i < entities.len() - 1 {
        let rest = entities.drop_last();
        assert(rest[i] == entities[i]);
        lemma_topmost(rest, i);
        if forall|j: int| i < j < entities.len() ==> (#[trigger] entities[j]).0 != entities[i].0 {
            assert(entities.last() == entities[entities.len() - 1]);
            assert forall|j: int| i < j < rest.len() implies (#[trigger] rest[j]).0
                != rest[i].0 by {
                assert(rest[j] == entities[j]);
            }
        }
    }
}

/// A rendered frame keeps the surface's dimensions and clear tile and shows
/// a tile at each of its cells.
pub proof fn lemma_rendered_shape(
    s: SurfaceView,
    map: TileMapView,
    entities: Seq<(Point, Renderable)>,
)
    ensures
        rendered(s, map, entities).width == s.width,
        rendered(s, map, entities).height == s.height,
        rendered(s, map, entities).clear_tile == s.clear_tile,
        s.wf() && drawable(s, map, entities) ==> rendered(s, map, entities).wf(),
{
    lemma_overlaid_shape(ground_painted(s.cleared(), map), entities);
}

/// Every cell of a rendered frame shows the last entity standing on it; a
/// cell without an entity shows ground where the map reaches and the clear
/// tile elsewhere.
pub proof fn lemma_rendered_cell(
    s: SurfaceView,
    map: TileMapView,
    entities: Seq<(Point, Renderable)>,
    p: Point,
)
    requires
        s.contains(p),
    ensures
        rendered(s, map, entities).tile_at(p) == frame_tile(s, map, entities, p),
{
    lemma_overlaid_cell(ground_painted(s.cleared(), map), entities, p);
}

/// Entities win over terrain: after a render pass the cell under an entity
/// shows an entity's tile, that of the last entity standing there, and so
/// the entity's own tile when no later entity shares its position.
pub proof fn lemma_entity_over_terrain(
    s: SurfaceView,
    map: TileMapView,
    entities: Seq<(Point, Renderable)>,
    i: int,
)
    requires
        drawable(s, map, entities),
        0 <= i < entities.len(),
    ensures
        topmost(entities, entities[i].0) is Some,
        rendered(s, map, entities).tile_at(entities[i].0) == tile_of(
            topmost(entities, entities[i].0)->Some_0,
        ),
        (forall|j: int| i < j < entities.len() ==> (#[trigger] entities[j]).0 != entities[i].0)
            ==> rendered(s, map, entities).tile_at(entities[i].0) == tile_of(entities[i].1),
{
    lemma_topmost(entities, i);
    lemma_rendered_cell(s, map, entities, entities[i].0);
}

/// A render pass keeps nothing of what the surface showed before: two
/// surfaces of the same dimensions and clear tile come out showing the same
/// frame.
pub proof fn lemma_render_forgets_prior_frame(
    s: SurfaceView,
    t: SurfaceView,
    map: TileMapView,
    entities: Seq<(Point, Renderable)>,
)
    requires
        s.width == t.width,
        s.height == t.height,
        s.clear_tile == t.clear_tile,
    ensures
        rendered(s, map, entities) == rendered(t, map, entities),
{
    assert(s.cleared() == t.cleared());
}

/// Rendering is idempotent: a second pass over the frame that a first pass
/// left, with the same map and entities, is possible exactly when the first
/// was and leaves the same frame.
pub proof fn lemma_render_idempotent(
    s: SurfaceView,
    map: TileMapView,
    entities: Seq<(Point, Renderable)>,
)
    ensures
        drawable(rendered(s, map, entities), map, entities) == drawable(s, map, entities),
        rendered(rendered(s, map, entities), map, entities) == rendered(s, map, entities),
{
    lemma_rendered_shape(s, map, entities);
    let once = rendered(s, map, entities);
    assert(once.cleared() == s.cleared());
    assert(drawable(once, map, entities) == drawable(s, map, entities)) by {
        assert(forall|p: Point| once.contains(p) == s.contains(p));
    }
}

} // verus!
