use tilemap_picking::geom::{
    anchor_offset_x, anchor_offset_y, cell_center_local, cell_to_world_center, local_to_cell,
    world_to_cell, CellCoord, GridAnchor, GridKind, GridSpec, MapTransform, Point,
};

fn grid(width: u32, height: u32, cell_size: u32, anchor: GridAnchor) -> GridSpec {
    GridSpec { width, height, cell_size, kind: GridKind::Square, anchor }
}

#[test]
fn centered_grid_resolves_origin_to_center_cell() {
    // 32x32 grid, cell size 32, anchor centered: world (0,0) is cell (16,16).
    let g = grid(32, 32, 32, GridAnchor::Center);
    assert_eq!(local_to_cell(Point { x: 0, y: 0 }, &g), Some(CellCoord { x: 16, y: 16 }));
}

#[test]
fn centered_grid_anchor_offsets() {
    let g = grid(32, 32, 32, GridAnchor::Center);
    assert_eq!(anchor_offset_x(&g), -512);
    assert_eq!(anchor_offset_y(&g), -512);
    let b = grid(4, 8, 10, GridAnchor::BottomLeft);
    assert_eq!(anchor_offset_x(&b), 0);
    assert_eq!(anchor_offset_y(&b), 0);
}

#[test]
fn bottom_left_grid_cell_lookup() {
    let g = grid(4, 4, 32, GridAnchor::BottomLeft);
    assert_eq!(local_to_cell(Point { x: 0, y: 0 }, &g), Some(CellCoord { x: 0, y: 0 }));
    assert_eq!(local_to_cell(Point { x: 31, y: 31 }, &g), Some(CellCoord { x: 0, y: 0 }));
    assert_eq!(local_to_cell(Point { x: 32, y: 95 }, &g), Some(CellCoord { x: 1, y: 2 }));
    // The high edge is exclusive, the low edge inclusive.
    assert_eq!(local_to_cell(Point { x: 128, y: 0 }, &g), None);
    assert_eq!(local_to_cell(Point { x: -1, y: 0 }, &g), None);
}

#[test]
fn out_of_bounds_points_resolve_to_no_cell() {
    let g = grid(32, 32, 32, GridAnchor::Center);
    assert_eq!(local_to_cell(Point { x: 512, y: 0 }, &g), None);
    assert_eq!(local_to_cell(Point { x: 0, y: -513 }, &g), None);
    assert_eq!(local_to_cell(Point { x: i64::MAX, y: 0 }, &g), None);
    assert_eq!(local_to_cell(Point { x: 0, y: i64::MIN }, &g), None);
}

#[test]
fn cell_center_is_midpoint_of_cell() {
    let g = grid(32, 32, 32, GridAnchor::Center);
    // Cell (16,16) spans local [0,32) on each axis; its center is (16,16).
    assert_eq!(cell_center_local(CellCoord { x: 16, y: 16 }, &g), Point { x: 16, y: 16 });
    let b = grid(4, 4, 32, GridAnchor::BottomLeft);
    assert_eq!(cell_center_local(CellCoord { x: 0, y: 0 }, &b), Point { x: 16, y: 16 });
    assert_eq!(cell_center_local(CellCoord { x: 3, y: 1 }, &b), Point { x: 112, y: 48 });
}

#[test]
fn snapping_round_trip_is_idempotent() {
    // Any point inside a valid cell maps to the same cell's center, no
    // matter where inside the cell it landed.
    let g = grid(32, 32, 32, GridAnchor::Center);
    let samples = [
        Point { x: 0, y: 0 },
        Point { x: 5, y: 31 },
        Point { x: 31, y: 17 },
        Point { x: -512, y: 511 },
        Point { x: 100, y: -100 },
    ];
    for p in samples {
        let c = local_to_cell(p, &g).expect("sample points lie on the grid");
        let center = cell_center_local(c, &g);
        assert_eq!(local_to_cell(center, &g), Some(c));
        // Snapping the center again changes nothing.
        let again = local_to_cell(center, &g).unwrap();
        assert_eq!(cell_center_local(again, &g), center);
    }
}

#[test]
fn world_mapping_applies_the_map_translation() {
    let g = grid(4, 4, 32, GridAnchor::BottomLeft);
    let t = MapTransform { tx: 1000, ty: -2000, z: 3 };
    assert_eq!(
        world_to_cell(&t, &g, Point { x: 1000, y: -2000 }),
        Some(CellCoord { x: 0, y: 0 })
    );
    assert_eq!(
        world_to_cell(&t, &g, Point { x: 1096, y: -1905 }),
        Some(CellCoord { x: 3, y: 2 })
    );
    assert_eq!(world_to_cell(&t, &g, Point { x: 999, y: -2000 }), None);
    assert_eq!(world_to_cell(&t, &g, Point { x: i64::MIN, y: -2000 }), None);
}

#[test]
fn world_center_round_trip_recovers_the_cell() {
    let g = grid(32, 32, 32, GridAnchor::Center);
    let t = MapTransform { tx: -77, ty: 123, z: 0 };
    let p = Point { x: -77 + 13, y: 123 - 200 };
    let c = world_to_cell(&t, &g, p).expect("point lies on the grid");
    let center = cell_to_world_center(c, &g, &t);
    assert_eq!(world_to_cell(&t, &g, center), Some(c));
}

#[test]
fn odd_cell_size_center_rounds_down() {
    let g = grid(3, 3, 5, GridAnchor::BottomLeft);
    assert_eq!(cell_center_local(CellCoord { x: 0, y: 0 }, &g), Point { x: 2, y: 2 });
    assert_eq!(local_to_cell(Point { x: 2, y: 2 }, &g), Some(CellCoord { x: 0, y: 0 }));
}
