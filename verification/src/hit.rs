//! The picking backend: per pointer and per tick, a depth-tagged list of
//! everything under the pointer — tile entities looked up through their
//! tilemap's grid, then buildings by axis-aligned bounding box — packaged
//! with the resolving camera and its render order.
//!
//! Depth convention: a tile hit reports the owning tilemap's z unchanged; a
//! building hit reports the *negation* of the building's z. The asymmetry is
//! deliberate and must be preserved: the downstream interaction tracker ranks
//! hits by this value, and foreground sprites (large z) must still rank as
//! close. No sorting happens here — tilemap hits come first, then building
//! hits, each in table order, and ranking is the downstream consumer's job.
//!
//! Any resolution miss (off-window pointer, no matching camera, undefined
//! viewport mapping) emits nothing for that pointer; a pointer that resolves
//! over empty space emits an empty list. Never an error.

use vstd::prelude::*;

use crate::camera::{
    cursor_in_range, first_camera_index, resolve_camera, screen_to_world,
    viewport_defined, world_x_of, world_y_of,
};
use crate::geom::{cell_at_world, Point};
use crate::scene::{
    tile_is_visible, tile_visible, Building, Pointer, Scene, Tile, Tilemap,
    DEFAULT_BUILDING_SIZE,
};

verus! {

/// One hit: the entity under the pointer, the camera it was seen through,
/// and the depth key the downstream ranking consumer orders by.
#[derive(Clone, Copy, Debug, PartialEq, Eq, Structural)]
pub struct HitRecord {
    pub target: u64,
    pub camera: u64,
    pub depth: i64,
}

/// The one message published per resolving pointer per tick: all hits under
/// that pointer, tagged with the resolving camera's render order.
#[derive(Clone, Debug)]
pub struct PointerHits {
    pub pointer: u64,
    pub camera_order: i32,
    pub hits: Vec<HitRecord>,
}

/// Half of a building's bounding width: half its declared size, or half the
/// documented default when it declares none.
pub open spec fn half_extent_w(b: Building) -> int {
    (match b.size {
        Some(s) => s.w,
        None => DEFAULT_BUILDING_SIZE,
    } as int) / 2
}

/// Half of a building's bounding height.
pub open spec fn half_extent_h(b: Building) -> int {
    (match b.size {
        Some(s) => s.h,
        None => DEFAULT_BUILDING_SIZE,
    } as int) / 2
}

/// The world point `(cx, cy)` lies in (or on the edge of) the visible
/// building's bounding box.
pub open spec fn building_hit(b: Building, cx: int, cy: int) -> bool {
    &&& b.visible
    &&& -half_extent_w(b) <= cx - b.x <= half_extent_w(b)
    &&& -half_extent_h(b) <= cy - b.y <= half_extent_h(b)
}

/// The record a building hit reports: depth is the *negation* of the
/// building's z.
pub open spec fn building_record(b: Building, cam: u64) -> HitRecord {
    HitRecord { target: b.entity, camera: cam, depth: (-(b.z as int)) as i64 }
}

/// The record a tile hit reports: depth is the owning tilemap's z.
pub open spec fn tile_record(m: Tilemap, entity: u64, cam: u64) -> HitRecord {
    HitRecord { target: entity, camera: cam, depth: m.transform.z as i64 }
}

/// The visible tile entity of map `m` under the world point, if any: the map
/// must be visible, the point must fall in a grid cell, the cell must be
/// occupied, and the occupying tile must be visible.
pub open spec fn tilemap_hit(m: Tilemap, tiles: Seq<Tile>, cx: int, cy: int) -> Option<u64> {
    if !m.visible {
        None
    } else {
        match cell_at_world(m.transform, m.grid, cx, cy) {
            None => None,
            Some(c) => match m.storage_at(c) {
                None => None,
                Some(e) => if tile_visible(tiles, e) {
                    Some(e)
                } else {
                    None
                },
            },
        }
    }
}

/// Hits of the first `n` tilemaps, in table order.
pub open spec fn tile_hits_upto(
    maps: Seq<Tilemap>,
    tiles: Seq<Tile>,
    cam: u64,
    cx: int,
    cy: int,
    n: int,
) -> Seq<HitRecord>
    decreases n,
{
    if n <= 0 {
        Seq::empty()
    } else {
        tile_hits_upto(maps, tiles, cam, cx, cy, n - 1) + (match tilemap_hit(
            maps[n - 1],
            tiles,
            cx,
            cy,
        ) {
            Some(e) => seq![tile_record(maps[n - 1], e, cam)],
            None => Seq::empty(),
        })
    }
}

/// All tilemap hits, in table order.
pub open spec fn tile_hits(maps: Seq<Tilemap>, tiles: Seq<Tile>, cam: u64, cx: int, cy: int) -> Seq<
    HitRecord,
> {
    tile_hits_upto(maps, tiles, cam, cx, cy, maps.len() as int)
}

/// Hits of the first `n` buildings, in table order.
pub open spec fn building_hits_upto(bs: Seq<Building>, cam: u64, cx: int, cy: int, n: int) -> Seq<
    HitRecord,
>
    decreases n,
{
    if n <= 0 {
        Seq::empty()
    } else {
        building_hits_upto(bs, cam, cx, cy, n - 1) + (if building_hit(bs[n - 1], cx, cy) {
            seq![building_record(bs[n - 1], cam)]
        } else {
            Seq::empty()
        })
    }
}

/// All building hits, in table order.
pub open spec fn building_hits(bs: Seq<Building>, cam: u64, cx: int, cy: int) -> Seq<HitRecord> {
    building_hits_upto(bs, cam, cx, cy, bs.len() as int)
}

/// The full hit list for one resolved pointer: tilemap hits first, then
/// building hits, unranked.
pub open spec fn all_hits(
    maps: Seq<Tilemap>,
    tiles: Seq<Tile>,
    bs: Seq<Building>,
    cam: u64,
    cx: int,
    cy: int,
) -> Seq<HitRecord> {
    tile_hits(maps, tiles, cam, cx, cy) + building_hits(bs, cam, cx, cy)
}

/// Whether the visible building's bounding box contains the cursor.
pub fn building_contains(b: &Building, cursor: Point) -> (r: bool)
    requires
        cursor_in_range(cursor),
    ensures
        r == building_hit(*b, cursor.x as int, cursor.y as int),
{
    if !b.visible {
        return false;
    }
    let (w, h) = match b.size {
        Some(s) => (s.w, s.h),
        None => (DEFAULT_BUILDING_SIZE, DEFAULT_BUILDING_SIZE),
    };
    let half_w = (w / 2) as i64;
    let half_h = (h / 2) as i64;
    let rx = match cursor.x.checked_sub(b.x) {
        Some(v) => v,
        None => {
            return false;
        },
    };
    let ry = match cursor.y.checked_sub(b.y) {
        Some(v) => v,
        None => {
            return false;
        },
    };
    rx >= -half_w && rx <= half_w && ry >= -half_h && ry <= half_h
}

/// The visible tile entity of map `m` under the cursor, if any.
pub fn tilemap_hit_entity(m: &Tilemap, tiles: &Vec<Tile>, cursor: Point) -> (r: Option<u64>)
    requires
        m.wf(),
    ensures
        r == tilemap_hit(*m, tiles@, cursor.x as int, cursor.y as int),
{
    if !m.visible {
        return None;
    }
    let c = match crate::geom::world_to_cell(&m.transform, &m.grid, cursor) {
        Some(c) => c,
        None => {
            return None;
        },
    };
    proof {
        crate::geom::lemma_cell_at_in_grid(
            m.grid,
            cursor.x - m.transform.tx,
            cursor.y - m.transform.ty,
        );
    }
    let e = match m.tile_at(c) {
        Some(e) => e,
        None => {
            return None;
        },
    };
    if tile_is_visible(tiles, e) {
        Some(e)
    } else {
        None
    }
}

/// Tests the cursor against every tilemap and every building and collects
/// the depth-tagged hits, tilemap hits first, in table order.
pub fn hit_test(
    maps: &Vec<Tilemap>,
    tiles: &Vec<Tile>,
    buildings: &Vec<Building>,
    camera_entity: u64,
    cursor: Point,
) -> (r: Vec<HitRecord>)
    requires
        forall|i: int| 0 <= i < maps@.len() ==> (#[trigger] maps@[i]).wf(),
        cursor_in_range(cursor),
    ensures
        r@ == all_hits(
            maps@,
            tiles@,
            buildings@,
            camera_entity,
            cursor.x as int,
            cursor.y as int,
        ),
{
    let ghost cx = cursor.x as int;
    let ghost cy = cursor.y as int;
    let mut hits: Vec<HitRecord> = Vec::new();
    let n = maps.len();
    let mut i: usize = 0;
    while i < n
        invariant
            i <= n,
            n == maps@.len(),
            forall|k: int| 0 <= k < maps@.len() ==> (#[trigger] maps@[k]).wf(),
            cursor_in_range(cursor),
            cx == cursor.x as int,
            cy == cursor.y as int,
            hits@ == tile_hits_upto(maps@, tiles@, camera_entity, cx, cy, i as int),
        decreases n - i,
    {
        match tilemap_hit_entity(&maps[i], tiles, cursor) {
            Some(e) => {
                hits.push(
                    HitRecord {
                        target: e,
                        camera: camera_entity,
                        depth: maps[i].transform.z as i64,
                    },
                );
            },
            None => {},
        }
        i = i + 1;
        proof {
            assert(hits@ =~= tile_hits_upto(maps@, tiles@, camera_entity, cx, cy, i as int));
        }
    }
    let m = buildings.len();
    let mut j: usize = 0;
    while j < m
        invariant
            j <= m,
            m == buildings@.len(),
            cursor_in_range(cursor),
            cx == cursor.x as int,
            cy == cursor.y as int,
            hits@ == tile_hits(maps@, tiles@, camera_entity, cx, cy) + building_hits_upto(
                buildings@,
                camera_entity,
                cx,
                cy,
                j as int,
            ),
        decreases m - j,
    {
        if building_contains(&buildings[j], cursor) {
            let b = &buildings[j];
            let depth = -(b.z as i64);
            hits.push(HitRecord { target: b.entity, camera: camera_entity, depth });
        }
        j = j + 1;
        proof {
            assert(hits@ =~= tile_hits(maps@, tiles@, camera_entity, cx, cy)
                + building_hits_upto(buildings@, camera_entity, cx, cy, j as int));
        }
    }
    hits
}

/// A pointer over a visible, occupied, visible-tile cell is reported: if
/// map `j` resolves the point to tile entity `e`, the hit list contains the
/// record for `e`, with depth equal to the owning tilemap's z.
pub proof fn lemma_tile_hit_reported(
    maps: Seq<Tilemap>,
    tiles: Seq<Tile>,
    bs: Seq<Building>,
    cam: u64,
    cx: int,
    cy: int,
    j: int,
)
    requires
        0 <= j < maps.len(),
        tilemap_hit(maps[j], tiles, cx, cy) is Some,
    ensures
        all_hits(maps, tiles, bs, cam, cx, cy).contains(
            tile_record(maps[j], tilemap_hit(maps[j], tiles, cx, cy)->Some_0, cam),
        ),
{
    let rec = tile_record(maps[j], tilemap_hit(maps[j], tiles, cx, cy)->Some_0, cam);
    lemma_tile_hits_upto_contains(maps, tiles, cam, cx, cy, j, maps.len() as int);
    let part = tile_hits(maps, tiles, cam, cx, cy);
    let k = choose|k: int| 0 <= k < part.len() && part[k] == rec;
    assert(all_hits(maps, tiles, bs, cam, cx, cy)[k] == rec);
}

proof fn lemma_tile_hits_upto_contains(
    maps: Seq<Tilemap>,
    tiles: Seq<Tile>,
    cam: u64,
    cx: int,
    cy: int,
    j: int,
    n: int,
)
    requires
        0 <= j < n <= maps.len(),
        tilemap_hit(maps[j], tiles, cx, cy) is Some,
    ensures
        tile_hits_upto(maps, tiles, cam, cx, cy, n).contains(
            tile_record(maps[j], tilemap_hit(maps[j], tiles, cx, cy)->Some_0, cam),
        ),
    decreases n,
{
    let rec = tile_record(maps[j], tilemap_hit(maps[j], tiles, cx, cy)->Some_0, cam);
    let prefix = tile_hits_upto(maps, tiles, cam, cx, cy, n - 1);
    if j == n - 1 {
        assert(tile_hits_upto(maps, tiles, cam, cx, cy, n)[prefix.len() as int] == rec);
    } else {
        lemma_tile_hits_upto_contains(maps, tiles, cam, cx, cy, j, n - 1);
        let k = choose|k: int| 0 <= k < prefix.len() && prefix[k] == rec;
        assert(tile_hits_upto(maps, tiles, cam, cx, cy, n)[k] == rec);
    }
}

/// A pointer inside a visible building's bounding box is reported: the hit
/// list contains the record for that building, with depth equal to the
/// *negation* of the building's z.
pub proof fn lemma_building_hit_reported(
    maps: Seq<Tilemap>,
    tiles: Seq<Tile>,
    bs: Seq<Building>,
    cam: u64,
    cx: int,
    cy: int,
    k: int,
)
    requires
        0 <= k < bs.len(),
        building_hit(bs[k], cx, cy),
    ensures
        all_hits(maps, tiles, bs, cam, cx, cy).contains(building_record(bs[k], cam)),
{
    let rec = building_record(bs[k], cam);
    lemma_building_hits_upto_contains(bs, cam, cx, cy, k, bs.len() as int);
    let part = building_hits(bs, cam, cx, cy);
    let idx = choose|idx: int| 0 <= idx < part.len() && part[idx] == rec;
    let head = tile_hits(maps, tiles, cam, cx, cy);
    assert(all_hits(maps, tiles, bs, cam, cx, cy)[head.len() + idx] == rec);
}

proof fn lemma_building_hits_upto_contains(
    bs: Seq<Building>,
    cam: u64,
    cx: int,
    cy: int,
    k: int,
    n: int,
)
    requires
        0 <= k < n <= bs.len(),
        building_hit(bs[k], cx, cy),
    ensures
        building_hits_upto(bs, cam, cx, cy, n).contains(building_record(bs[k], cam)),
    decreases n,
{
    let rec = building_record(bs[k], cam);
    let prefix = building_hits_upto(bs, cam, cx, cy, n - 1);
    if k == n - 1 {
        assert(building_hits_upto(bs, cam, cx, cy, n)[prefix.len() as int] == rec);
    } else {
        lemma_building_hits_upto_contains(bs, cam, cx, cy, k, n - 1);
        let idx = choose|idx: int| 0 <= idx < prefix.len() && prefix[idx] == rec;
        assert(building_hits_upto(bs, cam, cx, cy, n)[idx] == rec);
    }
}

/// Every reported building hit really is one: it names a building of the
/// table whose box contains the pointer, and reports depth `-z` for it.
pub proof fn lemma_building_hits_attributed(bs: Seq<Building>, cam: u64, cx: int, cy: int, idx: int)
    requires
        0 <= idx < building_hits(bs, cam, cx, cy).len(),
    ensures
        exists|k: int|
            0 <= k < bs.len() && building_hit(#[trigger] bs[k], cx, cy) && building_hits(
                bs,
                cam,
                cx,
                cy,
            )[idx] == building_record(bs[k], cam),
{
    lemma_building_hits_upto_attributed(bs, cam, cx, cy, bs.len() as int, idx);
}

proof fn lemma_building_hits_upto_attributed(
    bs: Seq<Building>,
    cam: u64,
    cx: int,
    cy: int,
    n: int,
    idx: int,
)
    requires
        n <= bs.len(),
        0 <= idx < building_hits_upto(bs, cam, cx, cy, n).len(),
    ensures
        exists|k: int|
            0 <= k < bs.len() && building_hit(#[trigger] bs[k], cx, cy) && building_hits_upto(
                bs,
                cam,
                cx,
                cy,
                n,
            )[idx] == building_record(bs[k], cam),
    decreases n,
{
    let full = building_hits_upto(bs, cam, cx, cy, n);
    let prefix = building_hits_upto(bs, cam, cx, cy, n - 1);
    if idx < prefix.len() {
        lemma_building_hits_upto_attributed(bs, cam, cx, cy, n - 1, idx);
        let k = choose|k: int|
            0 <= k < bs.len() && building_hit(#[trigger] bs[k], cx, cy) && prefix[idx]
                == building_record(bs[k], cam);
        assert(full[idx] == prefix[idx]);
        assert(building_hit(bs[k], cx, cy) && full[idx] == building_record(bs[k], cam));
    } else {
        assert(building_hit(bs[n - 1], cx, cy));
        assert(full[idx] == building_record(bs[n - 1], cam));
    }
}

/// Every reported tile hit really is one: it comes from a tilemap of the
/// table that resolves the pointer to that tile entity, and reports the
/// map's own z as depth.
pub proof fn lemma_tile_hits_attributed(
    maps: Seq<Tilemap>,
    tiles: Seq<Tile>,
    cam: u64,
    cx: int,
    cy: int,
    idx: int,
)
    requires
        0 <= idx < tile_hits(maps, tiles, cam, cx, cy).len(),
    ensures
        exists|j: int|
            0 <= j < maps.len() && tilemap_hit(#[trigger] maps[j], tiles, cx, cy) == Some(
                tile_hits(maps, tiles, cam, cx, cy)[idx].target,
            ) && tile_hits(maps, tiles, cam, cx, cy)[idx] == tile_record(
                maps[j],
                tile_hits(maps, tiles, cam, cx, cy)[idx].target,
                cam,
            ),
{
    lemma_tile_hits_upto_attributed(maps, tiles, cam, cx, cy, maps.len() as int, idx);
}

proof fn lemma_tile_hits_upto_attributed(
    maps: Seq<Tilemap>,
    tiles: Seq<Tile>,
    cam: u64,
    cx: int,
    cy: int,
    n: int,
    idx: int,
)
    requires
        n <= maps.len(),
        0 <= idx < tile_hits_upto(maps, tiles, cam, cx, cy, n).len(),
    ensures
        exists|j: int|
            0 <= j < maps.len() && tilemap_hit(#[trigger] maps[j], tiles, cx, cy) == Some(
                tile_hits_upto(maps, tiles, cam, cx, cy, n)[idx].target,
            ) && tile_hits_upto(maps, tiles, cam, cx, cy, n)[idx] == tile_record(
                maps[j],
                tile_hits_upto(maps, tiles, cam, cx, cy, n)[idx].target,
                cam,
            ),
    decreases n,
{
    let full = tile_hits_upto(maps, tiles, cam, cx, cy, n);
    let prefix = tile_hits_upto(maps, tiles, cam, cx, cy, n - 1);
    if idx < prefix.len() {
        lemma_tile_hits_upto_attributed(maps, tiles, cam, cx, cy, n - 1, idx);
        let j = choose|j: int|
            0 <= j < maps.len() && tilemap_hit(#[trigger] maps[j], tiles, cx, cy) == Some(
                prefix[idx].target,
            ) && prefix[idx] == tile_record(maps[j], prefix[idx].target, cam);
        assert(full[idx] == prefix[idx]);
        assert(tilemap_hit(maps[j], tiles, cx, cy) == Some(full[idx].target) && full[idx]
            == tile_record(maps[j], full[idx].target, cam));
    } else {
        assert(tilemap_hit(maps[n - 1], tiles, cx, cy) is Some);
        assert(full[idx] == tile_record(
            maps[n - 1],
            tilemap_hit(maps[n - 1], tiles, cx, cy)->Some_0,
            cam,
        ));
        assert(tilemap_hit(maps[n - 1], tiles, cx, cy) == Some(full[idx].target) && full[idx]
            == tile_record(maps[n - 1], full[idx].target, cam));
    }
}

/// A pointer outside every tilemap's grid and every building's bounding box
/// hits nothing: the list is empty.
pub proof fn lemma_hits_empty(
    maps: Seq<Tilemap>,
    tiles: Seq<Tile>,
    bs: Seq<Building>,
    cam: u64,
    cx: int,
    cy: int,
)
    requires
        forall|j: int| 0 <= j < maps.len() ==> tilemap_hit(#[trigger] maps[j], tiles, cx, cy)
            is None,
        forall|k: int| 0 <= k < bs.len() ==> !building_hit(#[trigger] bs[k], cx, cy),
    ensures
        all_hits(maps, tiles, bs, cam, cx, cy) == Seq::<HitRecord>::empty(),
{
    lemma_tile_hits_upto_empty(maps, tiles, cam, cx, cy, maps.len() as int);
    lemma_building_hits_upto_empty(bs, cam, cx, cy, bs.len() as int);
    assert(all_hits(maps, tiles, bs, cam, cx, cy) =~= Seq::<HitRecord>::empty());
}

proof fn lemma_tile_hits_upto_empty(
    maps: Seq<Tilemap>,
    tiles: Seq<Tile>,
    cam: u64,
    cx: int,
    cy: int,
    n: int,
)
    requires
        n <= maps.len(),
        forall|j: int| 0 <= j < maps.len() ==> tilemap_hit(#[trigger] maps[j], tiles, cx, cy)
            is None,
    ensures
        tile_hits_upto(maps, tiles, cam, cx, cy, n) == Seq::<HitRecord>::empty(),
    decreases n,
{
    if n > 0 {
        lemma_tile_hits_upto_empty(maps, tiles, cam, cx, cy, n - 1);
        assert(tile_hits_upto(maps, tiles, cam, cx, cy, n) =~= Seq::<HitRecord>::empty());
    }
}

proof fn lemma_building_hits_upto_empty(bs: Seq<Building>, cam: u64, cx: int, cy: int, n: int)
    requires
        n <= bs.len(),
        forall|k: int| 0 <= k < bs.len() ==> !building_hit(#[trigger] bs[k], cx, cy),
    ensures
        building_hits_upto(bs, cam, cx, cy, n) == Seq::<HitRecord>::empty(),
    decreases n,
{
    if n > 0 {
        lemma_building_hits_upto_empty(bs, cam, cx, cy, n - 1);
        assert(building_hits_upto(bs, cam, cx, cy, n) =~= Seq::<HitRecord>::empty());
    }
}

/// The message a `PointerHits` value carries, as plain mathematical data.
pub open spec fn message_view(m: PointerHits) -> (u64, i32, Seq<HitRecord>) {
    (m.pointer, m.camera_order, m.hits@)
}

/// The message one pointer gives rise to this tick: `None` on any
/// resolution miss, otherwise the pointer's id, the resolving camera's
/// render order, and the full hit list under the pointer.
pub open spec fn pointer_message(
    cams: Seq<crate::scene::Camera>,
    maps: Seq<Tilemap>,
    tiles: Seq<Tile>,
    bs: Seq<Building>,
    ptr: Pointer,
) -> Option<(u64, i32, Seq<HitRecord>)> {
    match ptr.location {
        None => None,
        Some(loc) => match first_camera_index(cams, loc.target) {
            None => None,
            Some(i) => if viewport_defined(cams[i]) {
                Some(
                    (
                        ptr.id,
                        cams[i].order,
                        all_hits(
                            maps,
                            tiles,
                            bs,
                            cams[i].entity,
                            world_x_of(cams[i], loc),
                            world_y_of(cams[i], loc),
                        ),
                    ),
                )
            } else {
                None
            },
        },
    }
}

/// All messages of one tick, one per resolving pointer, in pointer order.
pub open spec fn emitted_messages(
    cams: Seq<crate::scene::Camera>,
    maps: Seq<Tilemap>,
    tiles: Seq<Tile>,
    bs: Seq<Building>,
    ptrs: Seq<Pointer>,
) -> Seq<(u64, i32, Seq<HitRecord>)>
    decreases ptrs.len(),
{
    if ptrs.len() == 0 {
        Seq::empty()
    } else {
        (match pointer_message(cams, maps, tiles, bs, ptrs[0]) {
            Some(msg) => seq![msg],
            None => Seq::empty(),
        }) + emitted_messages(cams, maps, tiles, bs, ptrs.drop_first())
    }
}

/// Computes the hit list of one pointer, or `None` on a resolution miss.
pub fn pointer_hits_for(scene: &Scene, ptr: &Pointer) -> (r: Option<PointerHits>)
    requires
        scene.wf(),
        ptr.wf(),
    ensures
        pointer_message(scene.cameras@, scene.tilemaps@, scene.tiles@, scene.buildings@, *ptr)
            == match r {
            Some(msg) => Some(message_view(msg)),
            None => None::<(u64, i32, Seq<HitRecord>)>,
        },
{
    let loc = match ptr.location {
        Some(loc) => loc,
        None => {
            return None;
        },
    };
    let cam_index = match resolve_camera(&scene.cameras, loc.target) {
        Some(i) => i,
        None => {
            return None;
        },
    };
    let cam = scene.cameras[cam_index];
    let cursor = match screen_to_world(&cam, loc) {
        Some(p) => p,
        None => {
            return None;
        },
    };
    let hits = hit_test(&scene.tilemaps, &scene.tiles, &scene.buildings, cam.entity, cursor);
    Some(PointerHits { pointer: ptr.id, camera_order: cam.order, hits })
}

/// Runs the picking backend for one tick: for every pointer that resolves
/// to a world position, publishes one message with every hit under it —
/// tilemap hits first, then buildings, in table order, each tagged with its
/// depth key. Pointers that fail to resolve publish nothing; a resolved
/// pointer over empty space publishes an empty list.
pub fn picking_tick(scene: &Scene, pointers: &Vec<Pointer>) -> (r: Vec<PointerHits>)
    requires
        scene.wf(),
        forall|i: int| 0 <= i < pointers@.len() ==> (#[trigger] pointers@[i]).wf(),
    ensures
        r@.map_values(|m: PointerHits| message_view(m)) == emitted_messages(
            scene.cameras@,
            scene.tilemaps@,
            scene.tiles@,
            scene.buildings@,
            pointers@,
        ),
{
    let ghost all = pointers@;
    let mut out: Vec<PointerHits> = Vec::new();
    let n = pointers.len();
    let mut i: usize = 0;
    proof {
        assert(pointers@.skip(0) =~= pointers@);
        assert(out@.map_values(|m: PointerHits| message_view(m)) =~= Seq::<
            (u64, i32, Seq<HitRecord>),
        >::empty());
    }
    while i < n
        invariant
            i <= n,
            n == pointers@.len(),
            scene.wf(),
            forall|k: int| 0 <= k < pointers@.len() ==> (#[trigger] pointers@[k]).wf(),
            emitted_messages(
                scene.cameras@,
                scene.tilemaps@,
                scene.tiles@,
                scene.buildings@,
                pointers@,
            ) == out@.map_values(|m: PointerHits| message_view(m)) + emitted_messages(
                scene.cameras@,
                scene.tilemaps@,
                scene.tiles@,
                scene.buildings@,
                pointers@.skip(i as int),
            ),
        decreases n - i,
    {
        proof {
            assert(pointers@.skip(i as int).drop_first() =~= pointers@.skip(i + 1));
            assert(pointers@.skip(i as int)[0] == pointers@[i as int]);
        }
        let ghost before = out@;
        let ptr = pointers[i];
        match pointer_hits_for(scene, &ptr) {
            Some(msg) => {
                out.push(msg);
                proof {
                    assert(out@.map_values(|m: PointerHits| message_view(m)) =~= before.map_values(
                        |m: PointerHits| message_view(m),
                    ).push(message_view(out@[out@.len() - 1])));
                }
            },
            None => {},
        }
        i = i + 1;
        proof {
            assert(emitted_messages(
                scene.cameras@,
                scene.tilemaps@,
                scene.tiles@,
                scene.buildings@,
                pointers@,
            ) =~= out@.map_values(|m: PointerHits| message_view(m)) + emitted_messages(
                scene.cameras@,
                scene.tilemaps@,
                scene.tiles@,
                scene.buildings@,
                pointers@.skip(i as int),
            ));
        }
    }
    proof {
        assert(pointers@.skip(n as int) =~= Seq::<Pointer>::empty());
        assert(out@.map_values(|m: PointerHits| message_view(m)) =~= emitted_messages(
            scene.cameras@,
            scene.tilemaps@,
            scene.tiles@,
            scene.buildings@,
            pointers@,
        ));
    }
    out
}

} // verus!
