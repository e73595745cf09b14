//! The coordinate mapper: world-space points, grid cells, and the affine
//! (translation) transform of a tilemap.
//!
//! All coordinates are integer world units. A tilemap's grid covers the
//! half-open square `[anchor offset, anchor offset + extent)` on each axis in
//! the map's local space; cell `(cx, cy)` covers the half-open cell
//! `[offset + cx * cell, offset + (cx + 1) * cell)`, and its center sits at
//! `offset + cx * cell + cell / 2` (integer division, exact for even cell
//! sizes).

use vstd::prelude::*;

verus! {

/// Largest magnitude accepted for a stored world-space coordinate of a camera
/// center or a map translation. Generous for any playable map, and small
/// enough that every sum computed here fits an `i64` without overflow.
pub const WORLD_COORD_LIMIT: i64 = 0x4000_0000;

/// Largest magnitude accepted for a pointer's screen-space coordinate.
pub const SCREEN_COORD_LIMIT: i64 = 0x4000_0000;

/// Largest number of cells along one axis of a tilemap.
pub const MAP_DIM_LIMIT: u32 = 4096;

/// Largest side length of one grid cell, in world units.
pub const CELL_SIZE_LIMIT: u32 = 4096;

/// A point in world or local (map) space, in integer world units.
#[derive(Clone, Copy, Debug, PartialEq, Eq, Structural)]
pub struct Point {
    pub x: i64,
    pub y: i64,
}

/// An integer cell coordinate inside a tilemap's grid.
#[derive(Clone, Copy, Debug, PartialEq, Eq, Structural)]
pub struct CellCoord {
    pub x: u32,
    pub y: u32,
}

/// The geometry of a grid. Only square grids are modeled: the game
/// instantiates its tilemaps with the default (square) grid type.
#[derive(Clone, Copy, Debug, PartialEq, Eq, Structural)]
pub enum GridKind {
    Square,
}

/// Where the grid's origin sits relative to the map's local origin.
#[derive(Clone, Copy, Debug, PartialEq, Eq, Structural)]
pub enum GridAnchor {
    /// The grid spans `[0, extent)` on each axis.
    BottomLeft,
    /// The grid is centered on the local origin: it spans
    /// `[-extent / 2, extent - extent / 2)` on each axis.
    Center,
}

/// Size, cell size, grid type and anchor of one tilemap's grid.
#[derive(Clone, Copy, Debug, PartialEq, Eq, Structural)]
pub struct GridSpec {
    /// Width in cells.
    pub width: u32,
    /// Height in cells.
    pub height: u32,
    /// Side length of one cell, in world units.
    pub cell_size: u32,
    pub kind: GridKind,
    pub anchor: GridAnchor,
}

/// A tilemap's world transform: a translation in the plane and a depth layer.
/// The maps of this game are never rotated or scaled, so the inverse
/// transform is the opposite translation.
#[derive(Clone, Copy, Debug, PartialEq, Eq, Structural)]
pub struct MapTransform {
    pub tx: i64,
    pub ty: i64,
    /// Depth layer of the whole map; tile hits report it unchanged.
    pub z: i32,
}

impl GridSpec {
    /// A usable grid: at least one cell each way, and small enough that all
    /// grid arithmetic stays far from the integer limits.
    pub open spec fn wf(self) -> bool {
        &&& 1 <= self.width <= MAP_DIM_LIMIT
        &&& 1 <= self.height <= MAP_DIM_LIMIT
        &&& 1 <= self.cell_size <= CELL_SIZE_LIMIT
    }

    /// Total width of the grid in world units.
    pub open spec fn extent_x(self) -> int {
        self.width * self.cell_size
    }

    /// Total height of the grid in world units.
    pub open spec fn extent_y(self) -> int {
        self.height * self.cell_size
    }

    /// Local x coordinate of the grid's low edge.
    pub open spec fn anchor_off_x(self) -> int {
        match self.anchor {
            GridAnchor::BottomLeft => 0,
            GridAnchor::Center => -(self.extent_x() / 2),
        }
    }

    /// Local y coordinate of the grid's low edge.
    pub open spec fn anchor_off_y(self) -> int {
        match self.anchor {
            GridAnchor::BottomLeft => 0,
            GridAnchor::Center => -(self.extent_y() / 2),
        }
    }

    /// The cell coordinate lies inside this grid.
    pub open spec fn in_grid(self, c: CellCoord) -> bool {
        c.x < self.width && c.y < self.height
    }

    /// Number of cells in the grid.
    pub open spec fn cell_count(self) -> int {
        self.width * self.height
    }
}

/// The cell of grid `g` containing the local-space point `(x, y)`, or `None`
/// when the point lies outside the grid's bounds.
pub open spec fn cell_at_local(g: GridSpec, x: int, y: int) -> Option<CellCoord> {
    let rx = x - g.anchor_off_x();
    let ry = y - g.anchor_off_y();
    if 0 <= rx < g.extent_x() && 0 <= ry < g.extent_y() {
        Some(
            CellCoord {
                x: (rx / (g.cell_size as int)) as u32,
                y: (ry / (g.cell_size as int)) as u32,
            },
        )
    } else {
        None
    }
}

/// Local x coordinate of the center of cell `c` in grid `g`.
pub open spec fn cell_center_local_x(g: GridSpec, c: CellCoord) -> int {
    g.anchor_off_x() + c.x * g.cell_size + g.cell_size / 2
}

/// Local y coordinate of the center of cell `c` in grid `g`.
pub open spec fn cell_center_local_y(g: GridSpec, c: CellCoord) -> int {
    g.anchor_off_y() + c.y * g.cell_size + g.cell_size / 2
}

/// The cell of grid `g` under the world-space point `(x, y)`, with the map
/// placed by translation `t`.
pub open spec fn cell_at_world(t: MapTransform, g: GridSpec, x: int, y: int) -> Option<
    CellCoord,
> {
    cell_at_local(g, x - t.tx, y - t.ty)
}

/// World x coordinate of the center of cell `c`, with the map placed by `t`.
pub open spec fn cell_center_world_x(t: MapTransform, g: GridSpec, c: CellCoord) -> int {
    t.tx + cell_center_local_x(g, c)
}

/// World y coordinate of the center of cell `c`, with the map placed by `t`.
pub open spec fn cell_center_world_y(t: MapTransform, g: GridSpec, c: CellCoord) -> int {
    t.ty + cell_center_local_y(g, c)
}

impl MapTransform {
    /// Translations stay within the world-coordinate limit.
    pub open spec fn wf(self) -> bool {
        &&& -WORLD_COORD_LIMIT <= self.tx <= WORLD_COORD_LIMIT
        &&& -WORLD_COORD_LIMIT <= self.ty <= WORLD_COORD_LIMIT
    }
}

/// The anchor offset of a well-formed grid lies in `[-2^23, 0]`, and the
/// extents lie in `(0, 2^24]`.
pub proof fn lemma_grid_bounds(g: GridSpec)
    requires
        g.wf(),
    ensures
        0 < g.extent_x() <= 0x100_0000,
        0 < g.extent_y() <= 0x100_0000,
        -0x80_0000 <= g.anchor_off_x() <= 0,
        -0x80_0000 <= g.anchor_off_y() <= 0,
{
    assert(g.extent_x() <= 0x100_0000 && g.extent_y() <= 0x100_0000 && 0 < g.extent_x()
        && 0 < g.extent_y()) by (nonlinear_arith)
        requires
            1 <= g.width <= MAP_DIM_LIMIT,
            1 <= g.height <= MAP_DIM_LIMIT,
            1 <= g.cell_size <= CELL_SIZE_LIMIT,
            g.extent_x() == g.width * g.cell_size,
            g.extent_y() == g.height * g.cell_size,
    ;
}

/// Maps a local-space point to the grid cell containing it; `None` when the
/// point lies outside the grid's bounds. Total in the point: coordinates far
/// outside any well-formed grid are simply misses.
pub fn local_to_cell(p: Point, g: &GridSpec) -> (r: Option<CellCoord>)
    requires
        g.wf(),
    ensures
        r == cell_at_local(*g, p.x as int, p.y as int),
{
    proof {
        lemma_grid_bounds(*g);
    }
    // Anything beyond this band is outside every well-formed grid.
    if p.x < -0x200_0000 || p.x > 0x200_0000 || p.y < -0x200_0000 || p.y > 0x200_0000 {
        return None;
    }
    let off_x = anchor_offset_x(g);
    let off_y = anchor_offset_y(g);
    let rx = p.x - off_x;
    let ry = p.y - off_y;
    if rx < 0 || ry < 0 {
        return None;
    }
    let ext_x = (g.width as u64) * (g.cell_size as u64);
    let ext_y = (g.height as u64) * (g.cell_size as u64);
    if rx as u64 >= ext_x || ry as u64 >= ext_y {
        return None;
    }
    let cx = (rx as u64) / (g.cell_size as u64);
    let cy = (ry as u64) / (g.cell_size as u64);
    assert(cx < g.width && cy < g.height) by (nonlinear_arith)
        requires
            0 <= rx < g.width * g.cell_size,
            0 <= ry < g.height * g.cell_size,
            1 <= g.cell_size,
            cx == (rx as u64) / (g.cell_size as u64),
            cy == (ry as u64) / (g.cell_size as u64),
    ;
    Some(CellCoord { x: cx as u32, y: cy as u32 })
}

/// Local x coordinate of the low edge of grid `g`.
pub fn anchor_offset_x(g: &GridSpec) -> (r: i64)
    requires
        g.wf(),
    ensures
        r == g.anchor_off_x(),
{
    proof {
        lemma_grid_bounds(*g);
    }
    match g.anchor {
        GridAnchor::BottomLeft => 0,
        GridAnchor::Center => -((((g.width as u64) * (g.cell_size as u64)) / 2) as i64),
    }
}

/// Local y coordinate of the low edge of grid `g`.
pub fn anchor_offset_y(g: &GridSpec) -> (r: i64)
    requires
        g.wf(),
    ensures
        r == g.anchor_off_y(),
{
    proof {
        lemma_grid_bounds(*g);
    }
    match g.anchor {
        GridAnchor::BottomLeft => 0,
        GridAnchor::Center => -((((g.height as u64) * (g.cell_size as u64)) / 2) as i64),
    }
}

/// The local-space center of cell `c` in grid `g`.
pub fn cell_center_local(c: CellCoord, g: &GridSpec) -> (r: Point)
    requires
        g.wf(),
        g.in_grid(c),
    ensures
        r.x == cell_center_local_x(*g, c),
        r.y == cell_center_local_y(*g, c),
{
    proof {
        lemma_grid_bounds(*g);
    }
    let off_x = anchor_offset_x(g);
    let off_y = anchor_offset_y(g);
    let half = ((g.cell_size / 2) as i64);
    assert(c.x * g.cell_size < g.extent_x() && c.y * g.cell_size < g.extent_y())
        by (nonlinear_arith)
        requires
            c.x < g.width,
            c.y < g.height,
            1 <= g.cell_size,
            g.extent_x() == g.width * g.cell_size,
            g.extent_y() == g.height * g.cell_size,
    ;
    let x = off_x + (c.x as i64) * (g.cell_size as i64) + half;
    let y = off_y + (c.y as i64) * (g.cell_size as i64) + half;
    Point { x, y }
}

/// Maps a world-space point to the cell of grid `g` containing it, with the
/// map placed by translation `t`. Total in the point: positions out of the
/// `i64` neighborhood of the map are misses.
pub fn world_to_cell(t: &MapTransform, g: &GridSpec, p: Point) -> (r: Option<CellCoord>)
    requires
        t.wf(),
        g.wf(),
    ensures
        r == cell_at_world(*t, *g, p.x as int, p.y as int),
{
    proof {
        lemma_grid_bounds(*g);
    }
    let lx = match p.x.checked_sub(t.tx) {
        Some(v) => v,
        None => {
            return None;
        },
    };
    let ly = match p.y.checked_sub(t.ty) {
        Some(v) => v,
        None => {
            return None;
        },
    };
    local_to_cell(Point { x: lx, y: ly }, g)
}

/// The inverse of [`world_to_cell`] on valid cells: the world-space center of
/// cell `c`, with the map placed by `t`. Used to snap a dragged position to
/// the grid.
pub fn cell_to_world_center(c: CellCoord, g: &GridSpec, t: &MapTransform) -> (r: Point)
    requires
        t.wf(),
        g.wf(),
        g.in_grid(c),
    ensures
        r.x == cell_center_world_x(*t, *g, c),
        r.y == cell_center_world_y(*t, *g, c),
        -0x4100_0000 - WORLD_COORD_LIMIT <= r.x <= 0x4100_0000 + WORLD_COORD_LIMIT,
        -0x4100_0000 - WORLD_COORD_LIMIT <= r.y <= 0x4100_0000 + WORLD_COORD_LIMIT,
{
    proof {
        lemma_grid_bounds(*g);
    }
    let local = cell_center_local(c, g);
    proof {
        lemma_cell_center_in_grid(*g, c);
    }
    Point { x: t.tx + local.x, y: t.ty + local.y }
}

/// The center of a valid cell lies inside the grid's local bounds.
pub proof fn lemma_cell_center_in_grid(g: GridSpec, c: CellCoord)
    requires
        g.wf(),
        g.in_grid(c),
    ensures
        g.anchor_off_x() <= cell_center_local_x(g, c) < g.anchor_off_x() + g.extent_x(),
        g.anchor_off_y() <= cell_center_local_y(g, c) < g.anchor_off_y() + g.extent_y(),
{
    lemma_grid_bounds(g);
    assert(c.x * g.cell_size + g.cell_size / 2 < g.extent_x() && c.y * g.cell_size
        + g.cell_size / 2 < g.extent_y()) by (nonlinear_arith)
        requires
            c.x < g.width,
            c.y < g.height,
            1 <= g.cell_size,
            g.extent_x() == g.width * g.cell_size,
            g.extent_y() == g.height * g.cell_size,
    ;
}

/// Snapping is idempotent: the center of a valid cell maps back to that same
/// cell, so `cell_at_local` after `cell_center_local` recovers the cell no
/// matter where inside the cell the original point landed.
pub proof fn lemma_center_roundtrip_local(g: GridSpec, c: CellCoord)
    requires
        g.wf(),
        g.in_grid(c),
    ensures
        cell_at_local(g, cell_center_local_x(g, c), cell_center_local_y(g, c)) == Some(c),
{
    lemma_grid_bounds(g);
    lemma_cell_center_in_grid(g, c);
    let cs = g.cell_size as int;
    let rx = cell_center_local_x(g, c) - g.anchor_off_x();
    let ry = cell_center_local_y(g, c) - g.anchor_off_y();
    assert(rx == c.x * cs + cs / 2);
    assert(ry == c.y * cs + cs / 2);
    vstd::arithmetic::div_mod::lemma_fundamental_div_mod_converse(rx, cs, c.x as int, cs / 2);
    vstd::arithmetic::div_mod::lemma_fundamental_div_mod_converse(ry, cs, c.y as int, cs / 2);
}

/// Round trip at world level: for any world point `p` that lies in a valid
/// cell of the map, the world center of that cell maps back to the same
/// cell.
pub proof fn lemma_center_roundtrip_world(t: MapTransform, g: GridSpec, x: int, y: int)
    requires
        t.wf(),
        g.wf(),
        cell_at_world(t, g, x, y) is Some,
    ensures
        cell_at_world(
            t,
            g,
            cell_center_world_x(t, g, cell_at_world(t, g, x, y)->Some_0),
            cell_center_world_y(t, g, cell_at_world(t, g, x, y)->Some_0),
        ) == cell_at_world(t, g, x, y),
{
    let c = cell_at_world(t, g, x, y)->Some_0;
    lemma_cell_at_in_grid(g, x - t.tx, y - t.ty);
    lemma_center_roundtrip_local(g, c);
}

/// A cell produced by `cell_at_local` lies inside the grid.
pub proof fn lemma_cell_at_in_grid(g: GridSpec, x: int, y: int)
    requires
        g.wf(),
        cell_at_local(g, x, y) is Some,
    ensures
        g.in_grid(cell_at_local(g, x, y)->Some_0),
{
    lemma_grid_bounds(g);
    let rx = x - g.anchor_off_x();
    let ry = y - g.anchor_off_y();
    assert(rx / (g.cell_size as int) < g.width && ry / (g.cell_size as int) < g.height)
        by (nonlinear_arith)
        requires
            0 <= rx < g.width * g.cell_size,
            0 <= ry < g.height * g.cell_size,
            1 <= g.cell_size,
            g.extent_x() == g.width * g.cell_size,
            g.extent_y() == g.height * g.cell_size,
            rx < g.extent_x(),
            ry < g.extent_y(),
    ;
    vstd::arithmetic::div_mod::lemma_div_is_ordered(0, rx, g.cell_size as int);
    vstd::arithmetic::div_mod::lemma_div_is_ordered(0, ry, g.cell_size as int);
}

} // verus!
