//! Visual feedback: a pure map from interaction state to tint, recomputed
//! every tick, with dragging taking precedence over whatever the interaction
//! tracker reports.

use vstd::prelude::*;

use crate::scene::{Interaction, Tile, Tint};

verus! {

/// Tint of a tile under the given interaction state: pressed is reddish,
/// hovered is bright, otherwise plain white.
pub open spec fn tile_tint_spec(i: Interaction) -> Tint {
    match i {
        Interaction::Pressed => Tint::Reddish,
        Interaction::Hovered => Tint::Bright,
        Interaction::Idle => Tint::Neutral,
    }
}

/// Tint of a building: as for a tile, except that a building being dragged
/// always shows the pressed (reddish) tint, whatever its interaction state.
pub open spec fn building_tint_spec(i: Interaction, dragging: bool) -> Tint {
    if dragging {
        Tint::Reddish
    } else {
        tile_tint_spec(i)
    }
}

/// Maps a tile's interaction state to its tint.
pub fn tile_tint(i: Interaction) -> (r: Tint)
    ensures
        r == tile_tint_spec(i),
{
    match i {
        Interaction::Pressed => Tint::Reddish,
        Interaction::Hovered => Tint::Bright,
        Interaction::Idle => Tint::Neutral,
    }
}

/// Maps a building's interaction state, and whether it is being dragged, to
/// its tint.
pub fn building_tint(i: Interaction, dragging: bool) -> (r: Tint)
    ensures
        r == building_tint_spec(i, dragging),
{
    if dragging {
        Tint::Reddish
    } else {
        tile_tint(i)
    }
}

/// The tile after one feedback tick: tint recomputed, all else unchanged.
pub open spec fn retinted_tile(t: Tile) -> Tile {
    Tile { tint: tile_tint_spec(t.interaction), ..t }
}

/// One feedback tick over the tile table: every tile's tint is recomputed
/// from its current interaction state; nothing else changes.
pub fn tile_tint_tick(tiles: &mut Vec<Tile>)
    ensures
        final(tiles)@ == old(tiles)@.map_values(|t: Tile| retinted_tile(t)),
{
    let n = tiles.len();
    let mut i: usize = 0;
    while i < n
        invariant
            i <= n,
            n == tiles@.len(),
            tiles@.len() == old(tiles)@.len(),
            forall|k: int| 0 <= k < i ==> tiles@[k] == retinted_tile(#[trigger] old(tiles)@[k]),
            forall|k: int| i <= k < n ==> tiles@[k] == #[trigger] old(tiles)@[k],
        decreases n - i,
    {
        let mut t = tiles[i];
        t.tint = tile_tint(t.interaction);
        tiles.set(i, t);
        i = i + 1;
    }
    proof {
        assert(tiles@ =~= old(tiles)@.map_values(|t: Tile| retinted_tile(t)));
    }
}

} // verus!
