use tilemap_picking::drag::{drag_system, drag_tick, snap_to_grid, step_building};
use tilemap_picking::feedback::{building_tint, tile_tint, tile_tint_tick};
use tilemap_picking::geom::{GridAnchor, GridKind, GridSpec, MapTransform, Point};
use tilemap_picking::scene::{
    populate_tiles, Building, Camera, DragOffset, DragState, Interaction, Pointer, PointerLoc,
    Scene, Tile, Tilemap, Tint,
};

fn standard_grid() -> GridSpec {
    GridSpec {
        width: 32,
        height: 32,
        cell_size: 32,
        kind: GridKind::Square,
        anchor: GridAnchor::Center,
    }
}

fn standard_map() -> Tilemap {
    Tilemap::new(standard_grid(), MapTransform { tx: 0, ty: 0, z: 5 }, true)
}

fn plain_building(entity: u64, x: i64, y: i64) -> Building {
    Building {
        entity,
        x,
        y,
        z: 100,
        size: None,
        visible: true,
        interaction: Interaction::Idle,
        tint: Tint::Neutral,
        drag: DragState::Idle,
    }
}

#[test]
fn pressed_building_starts_dragging_with_cursor_offset() {
    let maps = vec![standard_map()];
    let mut b = plain_building(1, 40, 8);
    b.interaction = Interaction::Pressed;
    let cursor = Point { x: 47, y: 3 };
    let stepped = step_building(&b, &maps, Some(cursor), true);
    // The offset is cursor minus position, and the position does not move on
    // the starting tick: no jump to center under the cursor.
    assert_eq!(stepped.drag, DragState::Dragging(DragOffset { dx: 7, dy: -5 }));
    assert_eq!((stepped.x, stepped.y), (40, 8));
}

#[test]
fn drag_with_unmoved_cursor_recovers_the_cell_center() {
    let maps = vec![standard_map()];
    let mut b = plain_building(1, 40, 8);
    b.interaction = Interaction::Pressed;
    let cursor = Point { x: 47, y: 3 };
    let started = step_building(&b, &maps, Some(cursor), true);
    let next = step_building(&started, &maps, Some(cursor), true);
    // (40,8) lies in cell (17,16), whose center is (48,16): the building
    // snaps within its own cell, not to the cursor.
    assert_eq!((next.x, next.y), (48, 16));
}

#[test]
fn dragged_building_follows_cursor_snapped_to_cell_centers() {
    let maps = vec![standard_map()];
    let mut b = plain_building(1, 0, 0);
    b.drag = DragState::Dragging(DragOffset { dx: 0, dy: 0 });
    let stepped = step_building(&b, &maps, Some(Point { x: 100, y: -40 }), true);
    // World (100,-40) lies in the cell centered at (112,-48).
    assert_eq!((stepped.x, stepped.y), (112, -48));
    assert_eq!(stepped.drag, DragState::Dragging(DragOffset { dx: 0, dy: 0 }));
}

#[test]
fn drag_without_tilemap_moves_unsnapped() {
    let maps: Vec<Tilemap> = Vec::new();
    let mut b = plain_building(1, 0, 0);
    b.drag = DragState::Dragging(DragOffset { dx: 10, dy: 10 });
    let stepped = step_building(&b, &maps, Some(Point { x: 100, y: -40 }), true);
    assert_eq!((stepped.x, stepped.y), (90, -50));
}

#[test]
fn drag_off_the_grid_moves_unsnapped() {
    let maps = vec![standard_map()];
    let mut b = plain_building(1, 0, 0);
    b.drag = DragState::Dragging(DragOffset { dx: 0, dy: 0 });
    let stepped = step_building(&b, &maps, Some(Point { x: 600, y: 0 }), true);
    assert_eq!((stepped.x, stepped.y), (600, 0));
}

#[test]
fn snap_to_grid_picks_the_cell_center_under_the_point() {
    let maps = vec![standard_map()];
    assert_eq!(snap_to_grid(&maps, Point { x: 0, y: 0 }), Point { x: 16, y: 16 });
    assert_eq!(snap_to_grid(&maps, Point { x: -1, y: -1 }), Point { x: -16, y: -16 });
    // Off the grid: unchanged.
    assert_eq!(snap_to_grid(&maps, Point { x: 700, y: 0 }), Point { x: 700, y: 0 });
}

#[test]
fn releasing_the_button_idles_every_dragging_building_that_tick() {
    let maps = vec![standard_map()];
    let mut buildings = vec![plain_building(1, 0, 0), plain_building(2, 64, 64)];
    buildings[0].drag = DragState::Dragging(DragOffset { dx: 0, dy: 0 });
    buildings[1].drag = DragState::Dragging(DragOffset { dx: 4, dy: 4 });
    // No release event is modeled at all: the held flag alone decides.
    drag_tick(&mut buildings, &maps, Some(Point { x: 100, y: 100 }), false);
    assert_eq!(buildings[0].drag, DragState::Idle);
    assert_eq!(buildings[1].drag, DragState::Idle);
    // The release tick still applies the final snapped position, from the
    // drag state the tick started with.
    assert_eq!((buildings[0].x, buildings[0].y), (112, 112));
    assert_eq!((buildings[1].x, buildings[1].y), (112, 112));
}

#[test]
fn release_without_cursor_keeps_positions_and_idles() {
    let maps = vec![standard_map()];
    let mut buildings = vec![plain_building(1, 33, 35)];
    buildings[0].drag = DragState::Dragging(DragOffset { dx: 1, dy: 1 });
    drag_tick(&mut buildings, &maps, None, false);
    assert_eq!(buildings[0].drag, DragState::Idle);
    assert_eq!((buildings[0].x, buildings[0].y), (33, 35));
}

#[test]
fn pressed_building_does_not_start_without_the_button() {
    let maps = vec![standard_map()];
    let mut b = plain_building(1, 0, 0);
    b.interaction = Interaction::Pressed;
    let stepped = step_building(&b, &maps, Some(Point { x: 0, y: 0 }), false);
    assert_eq!(stepped.drag, DragState::Idle);
    let stepped = step_building(&b, &maps, None, true);
    assert_eq!(stepped.drag, DragState::Idle);
}

#[test]
fn hovered_building_does_not_start_dragging() {
    let maps = vec![standard_map()];
    let mut b = plain_building(1, 0, 0);
    b.interaction = Interaction::Hovered;
    let stepped = step_building(&b, &maps, Some(Point { x: 0, y: 0 }), true);
    assert_eq!(stepped.drag, DragState::Idle);
}

#[test]
fn drag_leaves_depth_size_and_interaction_untouched() {
    let maps = vec![standard_map()];
    let mut b = plain_building(1, 0, 0);
    b.interaction = Interaction::Pressed;
    b.drag = DragState::Dragging(DragOffset { dx: 0, dy: 0 });
    let stepped = step_building(&b, &maps, Some(Point { x: 200, y: 200 }), true);
    assert_eq!(stepped.z, 100);
    assert_eq!(stepped.size, None);
    assert_eq!(stepped.entity, 1);
    assert!(stepped.visible);
    assert_eq!(stepped.interaction, Interaction::Pressed);
}

#[test]
fn building_tints_follow_interaction_with_drag_precedence() {
    assert_eq!(building_tint(Interaction::Pressed, false), Tint::Reddish);
    assert_eq!(building_tint(Interaction::Pressed, true), Tint::Reddish);
    assert_eq!(building_tint(Interaction::Hovered, false), Tint::Bright);
    // Dragging forces the pressed tint, whatever the tracker reports.
    assert_eq!(building_tint(Interaction::Hovered, true), Tint::Reddish);
    assert_eq!(building_tint(Interaction::Idle, false), Tint::Neutral);
    assert_eq!(building_tint(Interaction::Idle, true), Tint::Reddish);
}

#[test]
fn tile_tints_follow_interaction() {
    assert_eq!(tile_tint(Interaction::Pressed), Tint::Reddish);
    assert_eq!(tile_tint(Interaction::Hovered), Tint::Bright);
    assert_eq!(tile_tint(Interaction::Idle), Tint::Neutral);
}

#[test]
fn tile_tint_tick_recolors_the_whole_table() {
    let mut tiles = vec![
        Tile { entity: 1, visible: true, interaction: Interaction::Pressed, tint: Tint::Neutral },
        Tile { entity: 2, visible: true, interaction: Interaction::Hovered, tint: Tint::Reddish },
        Tile { entity: 3, visible: false, interaction: Interaction::Idle, tint: Tint::Bright },
    ];
    tile_tint_tick(&mut tiles);
    assert_eq!(tiles[0].tint, Tint::Reddish);
    assert_eq!(tiles[1].tint, Tint::Bright);
    assert_eq!(tiles[2].tint, Tint::Neutral);
    assert_eq!(tiles[0].entity, 1);
    assert!(!tiles[2].visible);
}

#[test]
fn drag_tick_tints_buildings_from_the_starting_drag_state() {
    let maps = vec![standard_map()];
    let mut buildings = vec![plain_building(1, 0, 0), plain_building(2, 64, 64)];
    buildings[0].drag = DragState::Dragging(DragOffset { dx: 0, dy: 0 });
    buildings[1].interaction = Interaction::Hovered;
    drag_tick(&mut buildings, &maps, None, false);
    // The building released this tick still shows the dragging tint; it
    // idles for the next tick.
    assert_eq!(buildings[0].tint, Tint::Reddish);
    assert_eq!(buildings[0].drag, DragState::Idle);
    assert_eq!(buildings[1].tint, Tint::Bright);
}

#[test]
fn drag_system_follows_the_first_resolving_pointer() {
    let mut map = standard_map();
    let mut tiles: Vec<Tile> = Vec::new();
    populate_tiles(&mut map, &mut tiles, 1000);
    let cam = Camera {
        entity: 100,
        active: true,
        order: 0,
        target: 7,
        viewport_w: 800,
        viewport_h: 600,
        cx: 0,
        cy: 0,
    };
    let mut b = plain_building(500, 0, 0);
    b.drag = DragState::Dragging(DragOffset { dx: 0, dy: 0 });
    let mut scene =
        Scene { cameras: vec![cam], tilemaps: vec![map], tiles, buildings: vec![b] };
    // Pointer at screen (500, 300): world (100, 0), in the cell centered at
    // (112, 16).
    let ptrs = vec![Pointer { id: 1, location: Some(PointerLoc { target: 7, sx: 500, sy: 300 }) }];
    drag_system(&mut scene, &ptrs, true);
    assert_eq!((scene.buildings[0].x, scene.buildings[0].y), (112, 16));
    assert_eq!(scene.buildings[0].drag, DragState::Dragging(DragOffset { dx: 0, dy: 0 }));
    // With no resolving pointer, nothing moves.
    drag_system(&mut scene, &Vec::new(), true);
    assert_eq!((scene.buildings[0].x, scene.buildings[0].y), (112, 16));
}
