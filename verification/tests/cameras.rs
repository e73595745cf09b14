use tilemap_picking::camera::{first_cursor_world, pointer_world, resolve_camera, screen_to_world};
use tilemap_picking::geom::Point;
use tilemap_picking::scene::{Camera, Pointer, PointerLoc};

fn camera(entity: u64, active: bool, order: i32, target: u64) -> Camera {
    Camera { entity, active, order, target, viewport_w: 800, viewport_h: 600, cx: 0, cy: 0 }
}

#[test]
fn screen_to_world_maps_viewport_center_to_camera_center() {
    let cam = Camera {
        entity: 1,
        active: true,
        order: 0,
        target: 7,
        viewport_w: 800,
        viewport_h: 600,
        cx: 50,
        cy: -20,
    };
    let loc = PointerLoc { target: 7, sx: 400, sy: 300 };
    assert_eq!(screen_to_world(&cam, loc), Some(Point { x: 50, y: -20 }));
}

#[test]
fn screen_to_world_flips_the_y_axis() {
    let cam = camera(1, true, 0, 7);
    // Screen y grows downward: a pointer above the viewport center maps to a
    // world position above the camera center.
    let up = screen_to_world(&cam, PointerLoc { target: 7, sx: 400, sy: 0 }).unwrap();
    assert_eq!(up, Point { x: 0, y: 300 });
    let right = screen_to_world(&cam, PointerLoc { target: 7, sx: 800, sy: 300 }).unwrap();
    assert_eq!(right, Point { x: 400, y: 0 });
}

#[test]
fn zero_size_viewport_has_no_mapping() {
    let mut cam = camera(1, true, 0, 7);
    cam.viewport_w = 0;
    assert_eq!(screen_to_world(&cam, PointerLoc { target: 7, sx: 0, sy: 0 }), None);
    let mut cam = camera(1, true, 0, 7);
    cam.viewport_h = 0;
    assert_eq!(screen_to_world(&cam, PointerLoc { target: 7, sx: 0, sy: 0 }), None);
}

#[test]
fn resolve_camera_takes_first_active_match_in_table_order() {
    let cams = vec![
        camera(1, false, 9, 7), // inactive: skipped
        camera(2, true, 5, 8),  // wrong target: skipped
        camera(3, true, 0, 7),  // first match, despite lower order
        camera(4, true, 9, 7),
    ];
    assert_eq!(resolve_camera(&cams, 7), Some(2));
    assert_eq!(resolve_camera(&cams, 8), Some(1));
    assert_eq!(resolve_camera(&cams, 9), None);
    assert_eq!(resolve_camera(&Vec::new(), 7), None);
}

#[test]
fn pointer_without_location_resolves_to_nothing() {
    let cams = vec![camera(1, true, 0, 7)];
    let ptr = Pointer { id: 1, location: None };
    assert_eq!(pointer_world(&cams, &ptr), None);
}

#[test]
fn pointer_with_unmatched_target_resolves_to_nothing() {
    let cams = vec![camera(1, true, 0, 7)];
    let ptr = Pointer { id: 1, location: Some(PointerLoc { target: 8, sx: 400, sy: 300 }) };
    assert_eq!(pointer_world(&cams, &ptr), None);
}

#[test]
fn first_cursor_takes_the_first_pointer_that_resolves() {
    let cams = vec![camera(1, true, 0, 7)];
    let ptrs = vec![
        Pointer { id: 1, location: None },
        Pointer { id: 2, location: Some(PointerLoc { target: 9, sx: 1, sy: 1 }) },
        Pointer { id: 3, location: Some(PointerLoc { target: 7, sx: 401, sy: 300 }) },
        Pointer { id: 4, location: Some(PointerLoc { target: 7, sx: 500, sy: 300 }) },
    ];
    assert_eq!(first_cursor_world(&cams, &ptrs), Some(Point { x: 1, y: 0 }));
    assert_eq!(first_cursor_world(&cams, &Vec::new()), None);
}
