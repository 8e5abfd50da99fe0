//! The opening scene: a blank display, an all-floor map and the player.

use vstd::prelude::*;
use crate::map::{TileMap, TileMapView};
use crate::point::{Player, Point};
use crate::surface::{Surface, SurfaceView};
use crate::tile::{Color, Renderable, clear_tile, ground_tile};

verus! {

/// Everything a session owns: one display surface, one map, and the player
/// with its appearance and position.
pub struct Scene {
    pub surface: Surface,
    pub map: TileMap,
    pub player: (Player, Renderable, Point),
}

/// How the player is drawn: a white `@` on black.
pub open spec fn player_renderable() -> Renderable {
    Renderable {
        fg_color: Color { r: 255, g: 255, b: 255 },
        bg_color: Color { r: 0, g: 0, b: 0 },
        glyph: '@',
    }
}

/// Where the player starts.
pub open spec fn player_start() -> Point {
    Point { x: 5, y: 5 }
}

/// Builds the opening scene: a 10 by 10 display cleared to the ground
/// tile, a 10 by 10 map of floor, and the player at its starting cell.
pub fn setup() -> (scene: Scene)
    ensures
        scene.surface.wf(),
        scene.surface@ == SurfaceView::blank(10, 10, ground_tile()),
        scene.map@ == TileMapView::blank(10, 10),
        scene.player == (Player {  }, player_renderable(), player_start()),
{
    let surface: Surface = Surface::new(10, 10, clear_tile()).unwrap();
    let map: TileMap = TileMap::new(10, 10).unwrap();
    let player = Player {  };
    Scene {
        surface,
        map,
        player: (
            player,
            Renderable {
                fg_color: Color { r: 255, g: 255, b: 255 },
                bg_color: Color { r: 0, g: 0, b: 0 },
                glyph: '@',
            },
            Point { x: 5, y: 5 },
        ),
    }
}

impl Scene {
    /// The entities to draw, each as its position and appearance.
    pub fn entities(&self) -> (v: Vec<(Point, Renderable)>)
        ensures
            v@ == seq![(self.player.2, self.player.1)],
    {
        let mut v: Vec<(Point, Renderable)> = Vec::new();
        v.push((self.player.2, self.player.1));
        assert(v@ =~= seq![(self.player.2, self.player.1)]);
        v
    }
}

} // verus!
