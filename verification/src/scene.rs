//! The component tables the per-tick systems run over: cameras, pointers,
//! tilemaps with their tile-occupancy storage, tile entities, and placeable
//! buildings.
//!
//! The host engine owns the widgets behind these values; each tick it hands
//! the library a snapshot as plain integers and booleans. Interaction states
//! (none / hovered / pressed) are written by the engine's interaction tracker
//! from the hit lists this library emits; the library only reads them.

use vstd::prelude::*;

use crate::geom::{CellCoord, GridSpec, MapTransform, SCREEN_COORD_LIMIT, WORLD_COORD_LIMIT};

verus! {

/// Bounding side length, in world units, assumed for a building that declares
/// no explicit size.
pub const DEFAULT_BUILDING_SIZE: u32 = 192;

/// Depth layer given to a newly spawned building.
pub const BUILDING_SPAWN_Z: i32 = 100;

/// Tint applied to an entity for visual feedback.
#[derive(Clone, Copy, Debug, PartialEq, Eq, Structural)]
pub enum Tint {
    /// Plain white: no interaction.
    Neutral,
    /// Bright, yellow-ish: hovered.
    Bright,
    /// Reddish: pressed or being dragged.
    Reddish,
}

/// Per-entity interaction state, owned by the engine's interaction tracker.
#[derive(Clone, Copy, Debug, PartialEq, Eq, Structural)]
pub enum Interaction {
    Idle,
    Hovered,
    Pressed,
}

/// An explicit bounding size for a building, in world units.
#[derive(Clone, Copy, Debug, PartialEq, Eq, Structural)]
pub struct Size2 {
    pub w: u32,
    pub h: u32,
}

/// The fixed offset from a building's position to the pointer's world
/// position, captured when a drag starts and held for its whole duration so
/// the building does not jump to center itself under the cursor.
#[derive(Clone, Copy, Debug, PartialEq, Eq, Structural)]
pub struct DragOffset {
    pub dx: i64,
    pub dy: i64,
}

/// The drag controller's per-building state.
#[derive(Clone, Copy, Debug, PartialEq, Eq, Structural)]
pub enum DragState {
    Idle,
    Dragging(DragOffset),
}

/// One tile entity: its visibility flag and current tint. Its cell is the one
/// whose storage slot holds its entity id.
#[derive(Clone, Copy, Debug, PartialEq, Eq, Structural)]
pub struct Tile {
    pub entity: u64,
    pub visible: bool,
    pub interaction: Interaction,
    pub tint: Tint,
}

/// A placeable, draggable building. Only `x` and `y` are ever mutated here;
/// depth, size and visibility belong to the engine.
#[derive(Clone, Copy, Debug, PartialEq, Eq, Structural)]
pub struct Building {
    pub entity: u64,
    pub x: i64,
    pub y: i64,
    /// Depth layer; building hits report its negation.
    pub z: i32,
    /// Explicit bounding size; `None` falls back to
    /// [`DEFAULT_BUILDING_SIZE`] on both axes.
    pub size: Option<Size2>,
    pub visible: bool,
    pub interaction: Interaction,
    pub tint: Tint,
    pub drag: DragState,
}

/// One camera: candidate for a pointer when active and aimed at the
/// pointer's target surface. `cx`, `cy` is the world position its viewport
/// center looks at; `order` is its render-order key, passed through with each
/// hit list.
#[derive(Clone, Copy, Debug, PartialEq, Eq, Structural)]
pub struct Camera {
    pub entity: u64,
    pub active: bool,
    pub order: i32,
    /// Render-target surface, already normalized by the host (a pointer on
    /// the primary window and a camera rendering to it carry the same id).
    pub target: u64,
    pub viewport_w: u32,
    pub viewport_h: u32,
    pub cx: i64,
    pub cy: i64,
}

/// A pointer's screen-space location on its target surface. Screen y grows
/// downward, world y upward.
#[derive(Clone, Copy, Debug, PartialEq, Eq, Structural)]
pub struct PointerLoc {
    pub target: u64,
    pub sx: i64,
    pub sy: i64,
}

/// One pointer; its location is `None` while it is off-window.
#[derive(Clone, Copy, Debug, PartialEq, Eq, Structural)]
pub struct Pointer {
    pub id: u64,
    pub location: Option<PointerLoc>,
}

/// One tilemap: its grid, its placement, and a dense cell-to-entity storage
/// in row-major order (index `y * width + x`).
#[derive(Clone, Debug)]
pub struct Tilemap {
    pub grid: GridSpec,
    pub transform: MapTransform,
    pub visible: bool,
    pub storage: Vec<Option<u64>>,
}

impl Camera {
    /// Coordinates within the world limit; the viewport no larger than any
    /// real render target.
    pub open spec fn wf(self) -> bool {
        &&& -WORLD_COORD_LIMIT <= self.cx <= WORLD_COORD_LIMIT
        &&& -WORLD_COORD_LIMIT <= self.cy <= WORLD_COORD_LIMIT
        &&& self.viewport_w <= 0x1_0000
        &&& self.viewport_h <= 0x1_0000
    }
}

impl PointerLoc {
    pub open spec fn wf(self) -> bool {
        &&& -SCREEN_COORD_LIMIT <= self.sx <= SCREEN_COORD_LIMIT
        &&& -SCREEN_COORD_LIMIT <= self.sy <= SCREEN_COORD_LIMIT
    }
}

impl Pointer {
    pub open spec fn wf(self) -> bool {
        match self.location {
            Some(loc) => loc.wf(),
            None => true,
        }
    }
}

/// Row-major storage index of cell `c` in grid `g`.
pub open spec fn cell_index(g: GridSpec, c: CellCoord) -> int {
    c.y * g.width + c.x
}

impl Tilemap {
    /// A usable map: well-formed grid and transform, and one storage slot
    /// per cell.
    pub open spec fn wf(self) -> bool {
        &&& self.grid.wf()
        &&& self.transform.wf()
        &&& self.storage@.len() == self.grid.cell_count()
    }

    /// The entity occupying cell `c`, if any.
    pub open spec fn storage_at(self, c: CellCoord) -> Option<u64> {
        self.storage@[cell_index(self.grid, c)]
    }

    /// A fresh, fully unoccupied map.
    pub fn new(grid: GridSpec, transform: MapTransform, visible: bool) -> (r: Tilemap)
        requires
            grid.wf(),
            transform.wf(),
        ensures
            r.wf(),
            r.grid == grid,
            r.transform == transform,
            r.visible == visible,
            r.storage@ == Seq::new(grid.cell_count() as nat, |i: int| None::<u64>),
    {
        proof {
            crate::geom::lemma_grid_bounds(grid);
            assert(grid.cell_count() <= 0x100_0000) by (nonlinear_arith)
                requires
                    1 <= grid.width <= 4096,
                    1 <= grid.height <= 4096,
                    grid.cell_count() == grid.width * grid.height,
            ;
        }
        let count = (grid.width as u32) * (grid.height as u32);
        let mut storage: Vec<Option<u64>> = Vec::new();
        let mut i: u32 = 0;
        while i < count
            invariant
                i <= count,
                count == grid.cell_count(),
                storage@ == Seq::new(i as nat, |k: int| None::<u64>),
            decreases count - i,
        {
            storage.push(None);
            i = i + 1;
            proof {
                assert(storage@ =~= Seq::new(i as nat, |k: int| None::<u64>));
            }
        }
        proof {
            assert(storage@ =~= Seq::new(grid.cell_count() as nat, |i: int| None::<u64>));
        }
        Tilemap { grid, transform, visible, storage }
    }

    /// The entity occupying cell `c`, or `None` when the cell is empty or
    /// out of bounds.
    pub fn tile_at(&self, c: CellCoord) -> (r: Option<u64>)
        requires
            self.wf(),
        ensures
            r == (if self.grid.in_grid(c) {
                self.storage_at(c)
            } else {
                None::<u64>
            }),
    {
        if c.x >= self.grid.width || c.y >= self.grid.height {
            return None;
        }
        proof {
            lemma_cell_index_bounds(self.grid, c);
        }
        let idx = (c.y as usize) * (self.grid.width as usize) + (c.x as usize);
        self.storage[idx]
    }

    /// Records `entity` as the occupant of cell `c`.
    pub fn set_tile(&mut self, c: CellCoord, entity: u64)
        requires
            old(self).wf(),
            old(self).grid.in_grid(c),
        ensures
            final(self).wf(),
            final(self).grid == old(self).grid,
            final(self).transform == old(self).transform,
            final(self).visible == old(self).visible,
            final(self).storage@ == old(self).storage@.update(
                cell_index(old(self).grid, c),
                Some(entity),
            ),
    {
        proof {
            lemma_cell_index_bounds(self.grid, c);
        }
        let idx = (c.y as usize) * (self.grid.width as usize) + (c.x as usize);
        self.storage.set(idx, Some(entity));
    }
}

/// The storage index of an in-grid cell is a valid index, and the cell count
/// of a well-formed grid stays small.
pub proof fn lemma_cell_index_bounds(g: GridSpec, c: CellCoord)
    requires
        g.wf(),
        g.in_grid(c),
    ensures
        0 <= cell_index(g, c) < g.cell_count(),
        g.cell_count() <= 0x100_0000,
{
    assert(0 <= cell_index(g, c) < g.cell_count() && g.cell_count() <= 0x100_0000)
        by (nonlinear_arith)
        requires
            1 <= g.width <= 4096,
            1 <= g.height <= 4096,
            c.x < g.width,
            c.y < g.height,
            cell_index(g, c) == c.y * g.width + c.x,
            g.cell_count() == g.width * g.height,
    ;
}

/// The tile entity a fresh map population creates: visible, untinted, not
/// interacted with.
pub open spec fn fresh_tile(entity: u64) -> Tile {
    Tile { entity, visible: true, interaction: Interaction::Idle, tint: Tint::Neutral }
}

/// Fills every cell of the map with a freshly spawned tile entity, with
/// consecutive ids starting at `first_entity` in row-major cell order, and
/// appends the new tiles to the tile table. Mirrors the game's startup,
/// which spawns one tile per cell of its one map.
pub fn populate_tiles(map: &mut Tilemap, tiles: &mut Vec<Tile>, first_entity: u64)
    requires
        old(map).wf(),
        first_entity + old(map).grid.cell_count() <= u64::MAX,
    ensures
        final(map).wf(),
        final(map).grid == old(map).grid,
        final(map).transform == old(map).transform,
        final(map).visible == old(map).visible,
        final(map).storage@ == Seq::new(
            old(map).grid.cell_count() as nat,
            |i: int| Some((first_entity + i) as u64),
        ),
        final(tiles)@ == old(tiles)@ + Seq::new(
            old(map).grid.cell_count() as nat,
            |i: int| fresh_tile((first_entity + i) as u64),
        ),
{
    proof {
        lemma_cell_index_bounds(
            map.grid,
            CellCoord { x: (map.grid.width - 1) as u32, y: (map.grid.height - 1) as u32 },
        );
    }
    let count = (map.grid.width as u32) * (map.grid.height as u32);
    let ghost base = tiles@.len() as int;
    let mut k: u32 = 0;
    while k < count
        invariant
            k <= count,
            count == map.grid.cell_count(),
            first_entity + count <= u64::MAX,
            map.wf(),
            map.grid == old(map).grid,
            map.transform == old(map).transform,
            map.visible == old(map).visible,
            base == old(tiles)@.len(),
            forall|i: int| 0 <= i < k ==> map.storage@[i] == Some((first_entity + i) as u64),
            forall|i: int| k <= i < count ==> map.storage@[i] == #[trigger] old(map).storage@[i],
            tiles@.len() == base + k,
            forall|i: int| 0 <= i < base ==> tiles@[i] == #[trigger] old(tiles)@[i],
            forall|i: int|
                base <= i < base + k ==> (#[trigger] tiles@[i]) == fresh_tile(
                    (first_entity + (i - base)) as u64,
                ),
        decreases count - k,
    {
        let entity = first_entity + (k as u64);
        map.storage.set(k as usize, Some(entity));
        tiles.push(
            Tile { entity, visible: true, interaction: Interaction::Idle, tint: Tint::Neutral },
        );
        k = k + 1;
    }
    proof {
        assert(map.storage@ =~= Seq::new(
            old(map).grid.cell_count() as nat,
            |i: int| Some((first_entity + i) as u64),
        ));
        assert(tiles@ =~= old(tiles)@ + Seq::new(
            old(map).grid.cell_count() as nat,
            |i: int| fresh_tile((first_entity + i) as u64),
        ));
    }
}

/// The whole picture the systems run over each tick.
pub struct Scene {
    pub cameras: Vec<Camera>,
    pub tilemaps: Vec<Tilemap>,
    pub tiles: Vec<Tile>,
    pub buildings: Vec<Building>,
}

impl Scene {
    pub open spec fn wf(self) -> bool {
        &&& forall|i: int| 0 <= i < self.cameras@.len() ==> (#[trigger] self.cameras@[i]).wf()
        &&& forall|i: int| 0 <= i < self.tilemaps@.len() ==> (#[trigger] self.tilemaps@[i]).wf()
    }
}

/// First tile of the table carrying the given entity id.
pub open spec fn tile_lookup(tiles: Seq<Tile>, entity: u64) -> Option<Tile>
    decreases tiles.len(),
{
    if tiles.len() == 0 {
        None
    } else if tiles[0].entity == entity {
        Some(tiles[0])
    } else {
        tile_lookup(tiles.drop_first(), entity)
    }
}

/// Whether the tile entity occupying a cell is known and visible.
pub open spec fn tile_visible(tiles: Seq<Tile>, entity: u64) -> bool {
    match tile_lookup(tiles, entity) {
        Some(t) => t.visible,
        None => false,
    }
}

/// Looks the tile entity up in the tile table and reads its visibility;
/// `false` when the entity is unknown.
pub fn tile_is_visible(tiles: &Vec<Tile>, entity: u64) -> (r: bool)
    ensures
        r == tile_visible(tiles@, entity),
{
    let n = tiles.len();
    let mut i: usize = 0;
    proof {
        assert(tiles@.skip(0) =~= tiles@);
    }
    while i < n
        invariant
            i <= n,
            n == tiles@.len(),
            tile_lookup(tiles@, entity) == tile_lookup(tiles@.skip(i as int), entity),
        decreases n - i,
    {
        proof {
            assert(tiles@.skip(i as int).drop_first() =~= tiles@.skip(i + 1));
        }
        if tiles[i].entity == entity {
            assert(tiles@.skip(i as int)[0] == tiles@[i as int]);
            return tiles[i].visible;
        }
        assert(tiles@.skip(i as int)[0] == tiles@[i as int]);
        i = i + 1;
    }
    assert(tiles@.skip(n as int) =~= Seq::<Tile>::empty());
    false
}

/// Accepts the host's "spawn a building" request: appends a fresh building
/// at the world origin on the standard spawn layer, unsized, visible,
/// untinted, not interacted with and not dragging.
pub fn spawn_building(buildings: &mut Vec<Building>, entity: u64)
    ensures
        final(buildings)@ == old(buildings)@.push(spawned_building(entity)),
{
    buildings.push(
        Building {
            entity,
            x: 0,
            y: 0,
            z: BUILDING_SPAWN_Z,
            size: None,
            visible: true,
            interaction: Interaction::Idle,
            tint: Tint::Neutral,
            drag: DragState::Idle,
        },
    );
}

/// The building a spawn request creates.
pub open spec fn spawned_building(entity: u64) -> Building {
    Building {
        entity,
        x: 0,
        y: 0,
        z: BUILDING_SPAWN_Z,
        size: None,
        visible: true,
        interaction: Interaction::Idle,
        tint: Tint::Neutral,
        drag: DragState::Idle,
    }
}

} // verus!
