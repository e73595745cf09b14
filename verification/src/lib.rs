//! A verified core for a 2D tile-based building game: pointer picking and
//! grid-snapped drag-and-drop.
//!
//! The library models the engine-facing data (cameras, pointers, tilemaps,
//! placeable buildings) as plain integer-coordinate tables and verifies the
//! logic that runs over them each tick:
//!
//! - [`geom`]: the coordinate mapper — world space to grid cells and back,
//!   with the snap-to-cell-center round trip proved.
//! - [`scene`]: the component tables and their well-formedness invariants.
//! - [`camera`]: screen-to-world mapping and per-pointer camera resolution.
//! - [`hit`]: the picking backend — depth-tagged hit lists over tilemaps and
//!   buildings, one list per pointer per tick.
//! - [`drag`]: the drag state machine — idle/dragging transitions, the fixed
//!   drag offset, and grid snapping of the dragged position.
//! - [`feedback`]: interaction state to tint color.
//!
//! The host engine (rendering, windowing, input devices, the interaction
//! tracker that turns hit lists into hover/press states) is an external
//! collaborator: it hands this library plain values and takes plain values
//! back.

pub mod camera;
pub mod drag;
pub mod feedback;
pub mod geom;
pub mod hit;
pub mod scene;
