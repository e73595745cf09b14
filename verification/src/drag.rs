//! The drag controller: a per-building state machine, stepped once per tick.
//!
//! States are `Idle` and `Dragging(offset)`. A drag starts on a building
//! whose interaction state is pressed while the primary button is held and a
//! cursor resolves; the offset from the building to the cursor is captured
//! then and kept for the whole drag, so the building does not jump to center
//! itself under the cursor. Each tick, a dragging building is moved to the
//! cursor minus that offset, snapped to the center of the grid cell under
//! the desired position when the first tilemap resolves one. The instant the
//! primary button is not held — whether or not a release event was ever
//! observed — every drag ends; a dragged building still receives its final
//! snapped position on that same tick, from the drag state the tick started
//! with.
//!
//! Each building is stepped independently; the upstream interaction tracker
//! is trusted to have resolved at most one pressed building per tick.

use vstd::prelude::*;

use crate::feedback::{building_tint, building_tint_spec};
use crate::geom::{
    cell_at_world, cell_center_world_x, cell_center_world_y, cell_to_world_center,
    world_to_cell, Point,
};
use crate::scene::{Building, DragOffset, DragState, Interaction, Tilemap};

verus! {

/// The value fits an `i64`; positions that would not are left unmoved, the
/// one concession to machine limits in this controller.
pub open spec fn fits_i64(v: int) -> bool {
    i64::MIN <= v <= i64::MAX
}

/// Where a desired position ends up: snapped to the center of the grid cell
/// under it when the scene's first tilemap resolves one, unchanged when
/// there is no tilemap or the position lies off the grid.
pub open spec fn snap_target(maps: Seq<Tilemap>, x: int, y: int) -> (int, int) {
    if maps.len() == 0 {
        (x, y)
    } else {
        let m = maps[0];
        match cell_at_world(m.transform, m.grid, x, y) {
            Some(c) => (
                cell_center_world_x(m.transform, m.grid, c),
                cell_center_world_y(m.transform, m.grid, c),
            ),
            None => (x, y),
        }
    }
}

/// The position a building holds after the movement pass: a dragging
/// building follows the cursor minus its drag offset, snapped to the grid;
/// anything else stays put. Movement reads the drag state the tick started
/// with, so a building released this very tick still lands on its final
/// snapped position.
pub open spec fn moved_position(b: Building, maps: Seq<Tilemap>, cursor: Option<Point>) -> (
    int,
    int,
) {
    match (cursor, b.drag) {
        (Some(p), DragState::Dragging(off)) => {
            let dx = p.x - off.dx;
            let dy = p.y - off.dy;
            if fits_i64(dx) && fits_i64(dy) {
                snap_target(maps, dx, dy)
            } else {
                (b.x as int, b.y as int)
            }
        },
        _ => (b.x as int, b.y as int),
    }
}

/// The drag state a building holds after the tick. A button that is not
/// held ends every drag unconditionally. Otherwise a running drag keeps its
/// offset, and an idle building whose interaction state is pressed starts
/// dragging with the offset from its position to the cursor.
pub open spec fn next_drag(b: Building, cursor: Option<Point>, held: bool) -> DragState {
    if !held {
        DragState::Idle
    } else {
        match b.drag {
            DragState::Dragging(off) => DragState::Dragging(off),
            DragState::Idle => match cursor {
                Some(p) => if b.interaction is Pressed && fits_i64(p.x - b.x) && fits_i64(
                    p.y - b.y,
                ) {
                    DragState::Dragging(
                        DragOffset { dx: (p.x - b.x) as i64, dy: (p.y - b.y) as i64 },
                    )
                } else {
                    DragState::Idle
                },
                None => DragState::Idle,
            },
        }
    }
}

/// One whole drag-controller step for one building: position from the
/// movement pass, tint from the interaction state and the drag state the
/// tick started with, then the drag transition. Depth, size, visibility and
/// interaction state are untouched.
pub open spec fn building_step(
    b: Building,
    maps: Seq<Tilemap>,
    cursor: Option<Point>,
    held: bool,
) -> Building {
    let pos = moved_position(b, maps, cursor);
    Building {
        x: pos.0 as i64,
        y: pos.1 as i64,
        tint: building_tint_spec(b.interaction, b.drag is Dragging),
        drag: next_drag(b, cursor, held),
        ..b
    }
}

/// Snaps a world position to the center of the grid cell under it, through
/// the scene's first tilemap; returns the position unchanged when no
/// tilemap exists or the position lies outside the grid.
pub fn snap_to_grid(maps: &Vec<Tilemap>, p: Point) -> (r: Point)
    requires
        forall|i: int| 0 <= i < maps@.len() ==> (#[trigger] maps@[i]).wf(),
    ensures
        r.x as int == snap_target(maps@, p.x as int, p.y as int).0,
        r.y as int == snap_target(maps@, p.x as int, p.y as int).1,
{
    if maps.len() == 0 {
        return p;
    }
    let m = &maps[0];
    match world_to_cell(&m.transform, &m.grid, p) {
        Some(c) => {
            proof {
                crate::geom::lemma_cell_at_in_grid(m.grid, p.x - m.transform.tx, p.y - m.transform.ty);
            }
            cell_to_world_center(c, &m.grid, &m.transform)
        },
        None => p,
    }
}

/// Steps the drag controller for one building.
pub fn step_building(b: &Building, maps: &Vec<Tilemap>, cursor: Option<Point>, held: bool) -> (r:
    Building)
    requires
        forall|i: int| 0 <= i < maps@.len() ==> (#[trigger] maps@[i]).wf(),
    ensures
        r == building_step(*b, maps@, cursor, held),
{
    let mut nb = *b;
    let dragging = match b.drag {
        DragState::Dragging(_) => true,
        DragState::Idle => false,
    };
    if let Some(p) = cursor {
        if let DragState::Dragging(off) = b.drag {
            if let Some(dx) = p.x.checked_sub(off.dx) {
                if let Some(dy) = p.y.checked_sub(off.dy) {
                    let snapped = snap_to_grid(maps, Point { x: dx, y: dy });
                    nb.x = snapped.x;
                    nb.y = snapped.y;
                }
            }
        }
    }
    nb.tint = building_tint(b.interaction, dragging);
    if !held {
        nb.drag = DragState::Idle;
    } else if !dragging {
        nb.drag = DragState::Idle;
        if let Some(p) = cursor {
            match b.interaction {
                Interaction::Pressed => {
                    if let Some(dx) = p.x.checked_sub(b.x) {
                        if let Some(dy) = p.y.checked_sub(b.y) {
                            nb.drag = DragState::Dragging(DragOffset { dx, dy });
                        }
                    }
                },
                _ => {},
            }
        }
    }
    nb
}

/// One drag-controller tick over the whole building table: every building
/// is stepped independently through [`building_step`], against the same
/// cursor, button state and tilemaps. Whenever the primary button is not
/// held, every building ends the tick idle — a missed release event can
/// never leave a drag stuck.
pub fn drag_tick(
    buildings: &mut Vec<Building>,
    maps: &Vec<Tilemap>,
    cursor: Option<Point>,
    held: bool,
)
    requires
        forall|i: int| 0 <= i < maps@.len() ==> (#[trigger] maps@[i]).wf(),
    ensures
        final(buildings)@ == old(buildings)@.map_values(
            |b: Building| building_step(b, maps@, cursor, held),
        ),
        !held ==> forall|i: int|
            0 <= i < final(buildings)@.len() ==> (#[trigger] final(buildings)@[i]).drag is Idle,
{
    let n = buildings.len();
    let mut i: usize = 0;
    while i < n
        invariant
            i <= n,
            n == buildings@.len(),
            buildings@.len() == old(buildings)@.len(),
            forall|k: int| 0 <= k < maps@.len() ==> (#[trigger] maps@[k]).wf(),
            forall|k: int|
                0 <= k < i ==> buildings@[k] == building_step(
                    #[trigger] old(buildings)@[k],
                    maps@,
                    cursor,
                    held,
                ),
            forall|k: int| i <= k < n ==> buildings@[k] == #[trigger] old(buildings)@[k],
        decreases n - i,
    {
        let b = buildings[i];
        let nb = step_building(&b, maps, cursor, held);
        buildings.set(i, nb);
        i = i + 1;
    }
    proof {
        assert(buildings@ =~= old(buildings)@.map_values(
            |b: Building| building_step(b, maps@, cursor, held),
        ));
    }
}

/// The full drag system for one tick, as the game runs it: the cursor is
/// the world position of the first pointer that resolves through a camera,
/// and every building is stepped against it. Only the building table
/// changes.
pub fn drag_system(
    scene: &mut crate::scene::Scene,
    pointers: &Vec<crate::scene::Pointer>,
    primary_held: bool,
)
    requires
        old(scene).wf(),
        forall|i: int| 0 <= i < pointers@.len() ==> (#[trigger] pointers@[i]).wf(),
    ensures
        final(scene).cameras@ == old(scene).cameras@,
        final(scene).tilemaps@ == old(scene).tilemaps@,
        final(scene).tiles@ == old(scene).tiles@,
        final(scene).buildings@ == old(scene).buildings@.map_values(
            |b: Building| building_step(
                b,
                old(scene).tilemaps@,
                crate::camera::first_cursor_spec(old(scene).cameras@, pointers@),
                primary_held,
            ),
        ),
        !primary_held ==> forall|i: int|
            0 <= i < final(scene).buildings@.len()
                ==> (#[trigger] final(scene).buildings@[i]).drag is Idle,
{
    let cursor = crate::camera::first_cursor_world(&scene.cameras, pointers);
    drag_tick(&mut scene.buildings, &scene.tilemaps, cursor, primary_held);
}

/// A drag that has just started does not jump: take a building over a valid
/// grid cell that begins dragging this tick at cursor `p`. Its position is
/// untouched this tick, and if the cursor has not moved by the next tick,
/// the snapped position is the center of the very cell the building was on
/// — the drag offset cancels the cursor exactly.
pub proof fn lemma_drag_no_initial_jump(b: Building, maps: Seq<Tilemap>, p: Point)
    requires
        maps.len() > 0,
        maps[0].wf(),
        b.drag is Idle,
        b.interaction is Pressed,
        fits_i64(p.x - b.x),
        fits_i64(p.y - b.y),
        cell_at_world(maps[0].transform, maps[0].grid, b.x as int, b.y as int) is Some,
    ensures
        ({
            let c = cell_at_world(maps[0].transform, maps[0].grid, b.x as int, b.y as int)->Some_0;
            let b1 = building_step(b, maps, Some(p), true);
            let b2 = building_step(b1, maps, Some(p), true);
            &&& b1.x == b.x && b1.y == b.y
            &&& b1.drag == DragState::Dragging(
                DragOffset { dx: (p.x - b.x) as i64, dy: (p.y - b.y) as i64 },
            )
            &&& b2.x as int == cell_center_world_x(maps[0].transform, maps[0].grid, c)
            &&& b2.y as int == cell_center_world_y(maps[0].transform, maps[0].grid, c)
            &&& cell_at_world(maps[0].transform, maps[0].grid, b2.x as int, b2.y as int)
                == cell_at_world(maps[0].transform, maps[0].grid, b.x as int, b.y as int)
        }),
{
    let t = maps[0].transform;
    let g = maps[0].grid;
    let c = cell_at_world(t, g, b.x as int, b.y as int)->Some_0;
    let b1 = building_step(b, maps, Some(p), true);
    let b2 = building_step(b1, maps, Some(p), true);
    assert(b1.x == b.x && b1.y == b.y);
    let off = b1.drag->Dragging_0;
    assert(off.dx == p.x - b.x && off.dy == p.y - b.y);
    // The desired position next tick is exactly the building's old position.
    assert(p.x - off.dx == b.x as int && p.y - off.dy == b.y as int);
    crate::geom::lemma_grid_bounds(g);
    crate::geom::lemma_cell_at_in_grid(g, b.x - t.tx, b.y - t.ty);
    crate::geom::lemma_cell_center_in_grid(g, c);
    crate::geom::lemma_center_roundtrip_world(t, g, b.x as int, b.y as int);
}

} // verus!
