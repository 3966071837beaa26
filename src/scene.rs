//! One frame of the sandbox: the pointer is read first, then hovering and
//! clicks, then pawn movement, then the camera.
use vstd::prelude::*;

use crate::camera::{
    dragged, key_panned, zoom_changes, zoomed_all, DirectionKeys, ScrollEvent, Settings,
};
use crate::motion::{stepped, Pawn, PawnState};
use crate::pointer::{snapshot_of, PointerSnapshot};
use crate::selection::{click_select, first_set, hover_flags, hover_update, valid_selection};
use crate::transform::{Camera, Viewport, WindowPos, WorldPos};

verus! {

/// The camera scale at start: 1.0.
pub const INITIAL_SCALE: i64 = 1000;

/// The input of one frame.
#[derive(Debug)]
pub struct FrameInput {
    /// The cursor in the window, absent when it is outside.
    pub cursor: Option<WindowPos>,
    pub keys: DirectionKeys,
    /// The fast modifier is held.
    pub fast: bool,
    /// The primary button went down this frame.
    pub primary_pressed: bool,
    /// The secondary button went down this frame.
    pub secondary_pressed: bool,
    /// The drag button is held.
    pub drag_held: bool,
    pub scroll: Vec<ScrollEvent>,
    /// Time since the last frame, in microseconds.
    pub elapsed_us: u32,
}

/// The whole state of the sandbox.
#[derive(Debug)]
pub struct Scene {
    pub viewport: Viewport,
    pub settings: Settings,
    pub camera: Camera,
    pub pointer: PointerSnapshot,
    pub pawns: Vec<Pawn>,
    /// For each pawn, whether it is under the pointer this frame.
    pub hovered: Vec<bool>,
    /// The selected pawn, which the selection marker follows.
    pub selected: Option<usize>,
}

/// The pawns after a secondary click: the selected pawn, if any, walks to
/// the tile-rounded pointer position, if present.
pub open spec fn targeted(
    pawns: Seq<Pawn>,
    selected: Option<usize>,
    target: Option<WorldPos>,
) -> Seq<Pawn> {
    if selected is Some && target is Some {
        let i = selected->0 as int;
        pawns.update(i, Pawn { position: pawns[i].position, state: PawnState::MovingTo(target->0) })
    } else {
        pawns
    }
}

/// Every pawn after one step.
pub open spec fn all_stepped(pawns: Seq<Pawn>, elapsed: int) -> Seq<Pawn> {
    pawns.map_values(|p: Pawn| stepped(p, elapsed))
}

/// The camera after navigation: dragged while the drag button is held and
/// both the pointer and the anchor are known, still while it is held
/// otherwise, else panned with the keys; then zoomed.
pub open spec fn navigated(cam: Camera, settings: Settings, ptr: PointerSnapshot, input: FrameInput) -> Camera {
    let moved = if input.drag_held {
        if ptr.world is Some && ptr.drag_anchor is Some {
            dragged(cam, ptr.drag_anchor->0, ptr.world->0)
        } else {
            cam
        }
    } else {
        key_panned(cam, input.keys, input.fast, settings, input.elapsed_us as int)
    };
    Camera {
        position: moved.position,
        scale: zoomed_all(
            moved.scale as int,
            zoom_changes(input.scroll@, settings, input.fast, input.elapsed_us as int),
        ) as i64,
    }
}

impl Scene {
    /// The camera and pointer are well formed, every pawn lies within the
    /// world, there is one hover flag per pawn, and the selection names an
    /// existing pawn.
    pub open spec fn wf(self) -> bool {
        &&& self.camera.wf()
        &&& self.pointer.wf()
        &&& forall|i: int| 0 <= i < self.pawns.len() ==> (#[trigger] self.pawns[i]).wf()
        &&& self.hovered.len() == self.pawns.len()
        &&& valid_selection(self.selected, self.pawns.len() as int)
    }

    /// A scene with idle pawns at the given positions, the camera at the
    /// origin with scale 1.0, nothing hovered or selected.
    pub fn new(viewport: Viewport, settings: Settings, positions: &Vec<WorldPos>) -> (r: Scene)
        requires
            forall|i: int| 0 <= i < positions.len() ==> (#[trigger] positions[i]).in_world(),
        ensures
            r.wf(),
            r.viewport == viewport,
            r.settings == settings,
            r.camera == (Camera { position: WorldPos { x: 0, y: 0 }, scale: INITIAL_SCALE }),
            r.pointer == PointerSnapshot::empty_spec(),
            r.pawns.len() == positions.len(),
            forall|i: int|
                0 <= i < positions.len() ==> #[trigger] r.pawns[i] == (Pawn {
                    position: positions[i],
                    state: PawnState::Idle,
                }),
            forall|i: int| 0 <= i < positions.len() ==> !#[trigger] r.hovered[i],
            r.selected is None,
    {
        let mut pawns: Vec<Pawn> = Vec::new();
        let mut hovered: Vec<bool> = Vec::new();
        let mut i: usize = 0;
        while i < positions.len()
            invariant
                i <= positions.len(),
                pawns.len() == i,
                hovered.len() == i,
                forall|k: int| 0 <= k < positions.len() ==> (#[trigger] positions[k]).in_world(),
                forall|k: int|
                    0 <= k < i ==> #[trigger] pawns[k] == (Pawn {
                        position: positions[k],
                        state: PawnState::Idle,
                    }),
                forall|k: int| 0 <= k < i ==> !#[trigger] hovered[k],
            decreases positions.len() - i,
        {
            pawns.push(Pawn::new(positions[i]));
            hovered.push(false);
            i = i + 1;
        }
        Scene {
            viewport,
            settings,
            camera: Camera { position: WorldPos { x: 0, y: 0 }, scale: INITIAL_SCALE },
            pointer: PointerSnapshot::empty(),
            pawns,
            hovered,
            selected: None,
        }
    }

    /// Where the selection marker stands: on the selected pawn.
    pub fn marker(&self) -> (r: Option<WorldPos>)
        requires
            self.wf(),
        ensures
            r == (match self.selected {
                Some(i) => Some(self.pawns[i as int].position),
                None => None,
            }),
    {
        match self.selected {
            Some(i) => Some(self.pawns[i].position),
            None => None,
        }
    }

    /// Send the selected pawn, if any, toward a target.
    fn command_selected(&mut self, target: Option<WorldPos>)
        requires
            old(self).wf(),
            target is Some ==> target->0.in_world(),
        ensures
            final(self).pawns@ == targeted(old(self).pawns@, old(self).selected, target),
            final(self).wf(),
            final(self).viewport == old(self).viewport,
            final(self).settings == old(self).settings,
            final(self).camera == old(self).camera,
            final(self).pointer == old(self).pointer,
            final(self).hovered == old(self).hovered,
            final(self).selected == old(self).selected,
    {
        if let Some(i) = self.selected {
            if let Some(t) = target {
                let mut p: Pawn = self.pawns[i];
                p.set_target(t);
                self.pawns.set(i, p);
            }
        }
    }

    /// Step every pawn by `elapsed_us` microseconds.
    fn step_pawns(&mut self, elapsed_us: u32)
        requires
            old(self).wf(),
        ensures
            final(self).pawns@ == all_stepped(old(self).pawns@, elapsed_us as int),
            final(self).wf(),
            final(self).viewport == old(self).viewport,
            final(self).settings == old(self).settings,
            final(self).camera == old(self).camera,
            final(self).pointer == old(self).pointer,
            final(self).hovered == old(self).hovered,
            final(self).selected == old(self).selected,
    {
        let ghost start = self.pawns@;
        let mut i: usize = 0;
        while i < self.pawns.len()
            invariant
                i <= self.pawns.len(),
                self.pawns.len() == start.len(),
                self.wf(),
                self.viewport == old(self).viewport,
                self.settings == old(self).settings,
                self.camera == old(self).camera,
                self.pointer == old(self).pointer,
                self.hovered == old(self).hovered,
                self.selected == old(self).selected,
                start == old(self).pawns@,
                forall|k: int| 0 <= k < i ==> #[trigger] self.pawns[k] == stepped(start[k], elapsed_us as int),
                forall|k: int| i <= k < start.len() ==> #[trigger] self.pawns[k] == start[k],
            decreases start.len() - i,
        {
            let mut p: Pawn = self.pawns[i];
            p.step(elapsed_us);
            self.pawns.set(i, p);
            i = i + 1;
        }
        proof {
            assert(self.pawns@ =~= all_stepped(start, elapsed_us as int));
        }
    }

    /// Run one frame: refresh the pointer; recompute hovering against the
    /// tile-rounded pointer position, or keep it while the pointer is outside
    /// the window; on a primary click, select the first hovered pawn (or
    /// nothing); on a secondary click, send the selected
    /// pawn to the tile under the pointer; step the pawns; then drag or pan
    /// the camera and apply the scroll events.
    pub fn frame(&mut self, input: &FrameInput)
        requires
            old(self).wf(),
        ensures
            final(self).wf(),
            final(self).viewport == old(self).viewport,
            final(self).settings == old(self).settings,
            ({
                let ptr = snapshot_of(
                    old(self).pointer.drag_anchor,
                    old(self).viewport,
                    old(self).camera,
                    input.cursor,
                    input.drag_held,
                );
                let flags = hover_update(old(self).hovered@, old(self).pawns@, ptr.tile_rounded);
                let sel = if input.primary_pressed {
                    first_set(flags)
                } else {
                    old(self).selected
                };
                let commanded = if input.secondary_pressed {
                    targeted(old(self).pawns@, sel, ptr.tile_rounded)
                } else {
                    old(self).pawns@
                };
                &&& final(self).pointer == ptr
                &&& final(self).hovered@ == flags
                &&& final(self).selected == sel
                &&& final(self).pawns@ == all_stepped(commanded, input.elapsed_us as int)
                &&& final(self).camera == navigated(old(self).camera, old(self).settings, ptr, *input)
            }),
    {
        self.pointer.update(&self.viewport, &self.camera, input.cursor, input.drag_held);
        if let Some(p) = self.pointer.tile_rounded {
            self.hovered = hover_flags(&self.pawns, p);
        }
        if input.primary_pressed {
            self.selected = click_select(&self.hovered);
        }
        if input.secondary_pressed {
            self.command_selected(self.pointer.tile_rounded);
        }
        self.step_pawns(input.elapsed_us);
        if input.drag_held {
            if let (Some(w), Some(a)) = (self.pointer.world, self.pointer.drag_anchor) {
                self.camera.drag(a, w);
            }
        } else {
            self.camera.pan(input.keys, input.fast, &self.settings, input.elapsed_us);
        }
        self.camera.zoom(&input.scroll, input.fast, &self.settings, input.elapsed_us);
    }
}

} // verus!
