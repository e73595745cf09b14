//! Screen-space to world-space mapping through a camera, and resolution of
//! the camera a pointer looks through.
//!
//! A pointer is mapped through the first active camera whose render target
//! matches the pointer's target surface, in table order. When several active
//! cameras match, that first-match policy is the deliberate, documented
//! behavior: no priority by render order is applied.

use vstd::prelude::*;

use crate::geom::Point;
use crate::scene::{Camera, Pointer, PointerLoc};

verus! {

/// Whether the camera's viewport mapping is defined at all: a zero-size
/// viewport has no world position under any pixel.
pub open spec fn viewport_defined(cam: Camera) -> bool {
    cam.viewport_w > 0 && cam.viewport_h > 0
}

/// World x under screen position `loc` for camera `cam`: the camera center,
/// displaced by how far the pointer sits from the viewport center.
pub open spec fn world_x_of(cam: Camera, loc: PointerLoc) -> int {
    cam.cx + loc.sx - (cam.viewport_w as int) / 2
}

/// World y under screen position `loc` for camera `cam`. Screen y grows
/// downward, world y upward, so the displacement flips sign.
pub open spec fn world_y_of(cam: Camera, loc: PointerLoc) -> int {
    cam.cy + ((cam.viewport_h as int) / 2 - loc.sy)
}

/// A world position a well-formed camera can map a well-formed pointer to.
pub open spec fn cursor_in_range(p: Point) -> bool {
    &&& -0x1_0000_0000 <= p.x <= 0x1_0000_0000
    &&& -0x1_0000_0000 <= p.y <= 0x1_0000_0000
}

/// Maps a pointer's screen location to the world position under it, through
/// `cam`; `None` exactly when the camera's viewport mapping is undefined.
pub fn screen_to_world(cam: &Camera, loc: PointerLoc) -> (r: Option<Point>)
    requires
        cam.wf(),
        loc.wf(),
    ensures
        (r is Some) == viewport_defined(*cam),
        r matches Some(p) ==> p.x == world_x_of(*cam, loc) && p.y == world_y_of(*cam, loc)
            && cursor_in_range(p),
{
    if cam.viewport_w == 0 || cam.viewport_h == 0 {
        return None;
    }
    let x = cam.cx + (loc.sx - ((cam.viewport_w / 2) as i64));
    let y = cam.cy + (((cam.viewport_h / 2) as i64) - loc.sy);
    Some(Point { x, y })
}

/// An active camera aimed at the pointer's target surface.
pub open spec fn camera_matches(cam: Camera, target: u64) -> bool {
    cam.active && cam.target == target
}

/// Index of the first matching camera in the table, if any.
pub open spec fn first_camera_index(cams: Seq<Camera>, target: u64) -> Option<int>
    decreases cams.len(),
{
    if cams.len() == 0 {
        None
    } else if camera_matches(cams[0], target) {
        Some(0)
    } else {
        match first_camera_index(cams.drop_first(), target) {
            Some(i) => Some(i + 1),
            None => None,
        }
    }
}

/// A first-match index is a valid index of a matching camera.
pub proof fn lemma_first_camera_in_range(cams: Seq<Camera>, target: u64)
    requires
        first_camera_index(cams, target) is Some,
    ensures
        0 <= first_camera_index(cams, target)->Some_0 < cams.len(),
        camera_matches(cams[first_camera_index(cams, target)->Some_0], target),
    decreases cams.len(),
{
    if cams.len() > 0 && !camera_matches(cams[0], target) {
        lemma_first_camera_in_range(cams.drop_first(), target);
    }
}

/// The resolved index is the least matching one: no active camera aimed at
/// the target precedes it in the table. This is the whole of the documented
/// policy — when several active cameras match, table order decides, not
/// render order.
pub proof fn lemma_first_camera_least(cams: Seq<Camera>, target: u64)
    requires
        first_camera_index(cams, target) is Some,
    ensures
        forall|j: int|
            0 <= j < first_camera_index(cams, target)->Some_0 ==> !camera_matches(
                #[trigger] cams[j],
                target,
            ),
    decreases cams.len(),
{
    if cams.len() > 0 && !camera_matches(cams[0], target) {
        lemma_first_camera_least(cams.drop_first(), target);
        lemma_first_camera_in_range(cams, target);
        let i = first_camera_index(cams, target)->Some_0;
        assert forall|j: int| 0 <= j < i implies !camera_matches(#[trigger] cams[j], target) by {
            if j > 0 {
                assert(cams[j] == cams.drop_first()[j - 1]);
            }
        }
    }
}

/// Skipping a prefix of non-matching cameras shifts the first match.
proof fn lemma_first_camera_skip(cams: Seq<Camera>, target: u64, i: int)
    requires
        0 <= i <= cams.len(),
        forall|j: int| 0 <= j < i ==> !camera_matches(#[trigger] cams[j], target),
    ensures
        first_camera_index(cams, target) == match first_camera_index(cams.skip(i), target) {
            Some(k) => Some(k + i),
            None => None::<int>,
        },
    decreases i,
{
    if i == 0 {
        assert(cams.skip(0) =~= cams);
    } else {
        assert(cams.skip(i) =~= cams.drop_first().skip(i - 1));
        lemma_first_camera_skip(cams.drop_first(), target, i - 1);
    }
}

/// Resolves the camera a pointer on `target` looks through: the first active
/// camera whose render target matches, in table order.
pub fn resolve_camera(cams: &Vec<Camera>, target: u64) -> (r: Option<usize>)
    ensures
        (r is Some) == (first_camera_index(cams@, target) is Some),
        r matches Some(u) ==> u as int == first_camera_index(cams@, target)->Some_0 && u
            < cams@.len() && camera_matches(cams@[u as int], target),
{
    let n = cams.len();
    let mut i: usize = 0;
    while i < n
        invariant
            i <= n,
            n == cams@.len(),
            forall|j: int| 0 <= j < i ==> !camera_matches(#[trigger] cams@[j], target),
        decreases n - i,
    {
        if cams[i].active && cams[i].target == target {
            proof {
                lemma_first_camera_skip(cams@, target, i as int);
                assert(cams@.skip(i as int)[0] == cams@[i as int]);
            }
            return Some(i);
        }
        i = i + 1;
    }
    proof {
        lemma_first_camera_skip(cams@, target, n as int);
        assert(cams@.skip(n as int) =~= Seq::<Camera>::empty());
    }
    None
}

/// The world position a pointer resolves to this tick: `None` when the
/// pointer is off-window, no camera matches its target, or the matching
/// camera's viewport mapping is undefined.
pub open spec fn pointer_world_spec(cams: Seq<Camera>, ptr: Pointer) -> Option<Point> {
    match ptr.location {
        None => None,
        Some(loc) => match first_camera_index(cams, loc.target) {
            None => None,
            Some(i) => if viewport_defined(cams[i]) {
                Some(
                    Point {
                        x: world_x_of(cams[i], loc) as i64,
                        y: world_y_of(cams[i], loc) as i64,
                    },
                )
            } else {
                None
            },
        },
    }
}

/// Resolves one pointer to its world position, or `None` on any resolution
/// miss (no location, no matching camera, undefined viewport mapping).
pub fn pointer_world(cams: &Vec<Camera>, ptr: &Pointer) -> (r: Option<Point>)
    requires
        forall|i: int| 0 <= i < cams@.len() ==> (#[trigger] cams@[i]).wf(),
        ptr.wf(),
    ensures
        r == pointer_world_spec(cams@, *ptr),
        r matches Some(p) ==> cursor_in_range(p),
{
    let loc = match ptr.location {
        Some(loc) => loc,
        None => {
            return None;
        },
    };
    let cam_index = match resolve_camera(cams, loc.target) {
        Some(i) => i,
        None => {
            return None;
        },
    };
    proof {
        lemma_first_camera_in_range(cams@, loc.target);
    }
    screen_to_world(&cams[cam_index], loc)
}

/// The world position of the first pointer that resolves this tick.
pub open spec fn first_cursor_spec(cams: Seq<Camera>, ptrs: Seq<Pointer>) -> Option<Point>
    decreases ptrs.len(),
{
    if ptrs.len() == 0 {
        None
    } else {
        match pointer_world_spec(cams, ptrs[0]) {
            Some(p) => Some(p),
            None => first_cursor_spec(cams, ptrs.drop_first()),
        }
    }
}

/// Resolves the cursor the drag controller follows: the world position of
/// the first pointer that maps through a camera this tick.
pub fn first_cursor_world(cams: &Vec<Camera>, ptrs: &Vec<Pointer>) -> (r: Option<Point>)
    requires
        forall|i: int| 0 <= i < cams@.len() ==> (#[trigger] cams@[i]).wf(),
        forall|i: int| 0 <= i < ptrs@.len() ==> (#[trigger] ptrs@[i]).wf(),
    ensures
        r == first_cursor_spec(cams@, ptrs@),
        r matches Some(p) ==> cursor_in_range(p),
{
    let n = ptrs.len();
    let mut i: usize = 0;
    proof {
        assert(ptrs@.skip(0) =~= ptrs@);
    }
    while i < n
        invariant
            i <= n,
            n == ptrs@.len(),
            forall|k: int| 0 <= k < cams@.len() ==> (#[trigger] cams@[k]).wf(),
            forall|k: int| 0 <= k < ptrs@.len() ==> (#[trigger] ptrs@[k]).wf(),
            first_cursor_spec(cams@, ptrs@) == first_cursor_spec(cams@, ptrs@.skip(i as int)),
        decreases n - i,
    {
        proof {
            assert(ptrs@.skip(i as int).drop_first() =~= ptrs@.skip(i + 1));
            assert(ptrs@.skip(i as int)[0] == ptrs@[i as int]);
        }
        let ptr = ptrs[i];
        match pointer_world(cams, &ptr) {
            Some(p) => {
                return Some(p);
            },
            None => {},
        }
        i = i + 1;
    }
    assert(ptrs@.skip(n as int) =~= Seq::<Pointer>::empty());
    None
}

} // verus!
