//! The pointer as seen in one frame: where it is in the window, in the
//! world and on the grid, and the anchor that a drag holds on to.
use vstd::prelude::*;

use crate::transform::{
    snap_to_tile, tile_index, tile_of, tile_round, window_to_world, world_x_of, world_y_of,
    Camera, TileCoord, Viewport, WindowPos, WorldPos,
};

verus! {

/// What is known of the pointer in the current frame; every field but the
/// drag anchor is absent while the pointer is outside the window.
#[derive(Clone, Copy, Debug, PartialEq, Eq, Structural)]
pub struct PointerSnapshot {
    pub window: Option<WindowPos>,
    pub world: Option<WorldPos>,
    pub tile_rounded: Option<WorldPos>,
    pub tile: Option<TileCoord>,
    /// The world position of the pointer in the last frame in which the
    /// drag button was not held.
    pub drag_anchor: Option<WorldPos>,
}

/// The world position under a window position.
pub open spec fn world_of(vp: Viewport, cam: Camera, p: WindowPos) -> WorldPos {
    WorldPos { x: world_x_of(vp, cam, p.x as int) as i64, y: world_y_of(vp, cam, p.y as int) as i64 }
}

/// A world position moved to the center of its tile.
pub open spec fn snapped(w: WorldPos) -> WorldPos {
    WorldPos { x: tile_round(w.x as int) as i64, y: tile_round(w.y as int) as i64 }
}

/// The tile under a world position.
pub open spec fn tile_under(w: WorldPos) -> TileCoord {
    TileCoord { x: tile_index(w.x as int) as i64, y: tile_index(w.y as int) as i64 }
}

/// The snapshot for a frame: the cursor counts only inside the window; the
/// anchor follows the world position while the drag button is up and keeps
/// its value while it is held.
pub open spec fn snapshot_of(
    prev_anchor: Option<WorldPos>,
    vp: Viewport,
    cam: Camera,
    cursor: Option<WindowPos>,
    drag_held: bool,
) -> PointerSnapshot {
    let inside = cursor is Some && vp.holds(cursor->0);
    let world = if inside {
        Some(world_of(vp, cam, cursor->0))
    } else {
        None
    };
    PointerSnapshot {
        window: if inside {
            cursor
        } else {
            None
        },
        world,
        tile_rounded: if inside {
            Some(snapped(world->0))
        } else {
            None
        },
        tile: if inside {
            Some(tile_under(world->0))
        } else {
            None
        },
        drag_anchor: if drag_held {
            prev_anchor
        } else {
            world
        },
    }
}

pub open spec fn opt_in_world(w: Option<WorldPos>) -> bool {
    w is Some ==> w->0.in_world()
}

impl PointerSnapshot {
    /// Every world position it holds lies within `WORLD_LIMIT`.
    pub open spec fn wf(self) -> bool {
        opt_in_world(self.world) && opt_in_world(self.tile_rounded) && opt_in_world(
            self.drag_anchor,
        )
    }

    /// A snapshot with nothing known.
    pub open spec fn empty_spec() -> PointerSnapshot {
        PointerSnapshot { window: None, world: None, tile_rounded: None, tile: None, drag_anchor: None }
    }

    /// A snapshot with nothing known.
    pub fn empty() -> (r: PointerSnapshot)
        ensures
            r == PointerSnapshot::empty_spec(),
            r.wf(),
    {
        PointerSnapshot { window: None, world: None, tile_rounded: None, tile: None, drag_anchor: None }
    }

    /// Recompute the snapshot from this frame's cursor (absent when the
    /// pointer left the window) and drag button.
    pub fn update(
        &mut self,
        vp: &Viewport,
        cam: &Camera,
        cursor: Option<WindowPos>,
        drag_held: bool,
    )
        requires
            old(self).wf(),
            cam.wf(),
        ensures
            *final(self) == snapshot_of(old(self).drag_anchor, *vp, *cam, cursor, drag_held),
            final(self).wf(),
    {
        let world: Option<WorldPos> = match cursor {
            Some(p) => {
                if vp.contains(p) {
                    Some(window_to_world(vp, cam, p))
                } else {
                    None
                }
            },
            None => None,
        };
        match world {
            Some(w) => {
                self.window = cursor;
                self.world = world;
                self.tile_rounded = Some(snap_to_tile(w));
                self.tile = Some(tile_of(w));
            },
            None => {
                self.window = None;
                self.world = None;
                self.tile_rounded = None;
                self.tile = None;
            },
        }
        if !drag_held {
            self.drag_anchor = world;
        }
    }
}

} // verus!
