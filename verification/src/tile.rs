use vstd::prelude::*;

verus! {

/// The atomic cell state of the grid: whether the cell may be occupied,
/// whether it stops line of sight, and whether it has ever been seen.
///
/// Generators only ever produce the two canonical combinations, a wall
/// (`blocked` and `block_sight` both set) and an empty floor cell (both
/// clear); `explored` starts out false and is only ever raised.
#[derive(Clone, Copy, Debug, PartialEq, Eq, Structural)]
pub struct Tile {
    pub blocked: bool,
    pub block_sight: bool,
    pub explored: bool,
}

impl Tile {
    /// The canonical floor tile: passable, transparent, unexplored.
    pub open spec fn empty_spec() -> Tile {
        Tile { blocked: false, block_sight: false, explored: false }
    }

    /// The canonical wall tile: impassable, opaque, unexplored.
    pub open spec fn wall_spec() -> Tile {
        Tile { blocked: true, block_sight: true, explored: false }
    }

    pub open spec fn spec_is_wall(self) -> bool {
        self.block_sight
    }

    #[verifier::when_used_as_spec(spec_is_wall)]
    pub fn is_wall(self) -> (r: bool)
        ensures
            r == self.spec_is_wall(),
    {
        self.block_sight
    }

    #[verifier::when_used_as_spec(empty_spec)]
    pub fn empty() -> (t: Tile)
        ensures
            t == Tile::empty_spec(),
    {
        Tile { blocked: false, block_sight: false, explored: false }
    }

    #[verifier::when_used_as_spec(wall_spec)]
    pub fn wall() -> (t: Tile)
        ensures
            t == Tile::wall_spec(),
    {
        Tile { blocked: true, block_sight: true, explored: false }
    }

    /// A tile is canonical if it is a wall or a floor cell, save for its
    /// `explored` flag, which either may carry.
    pub open spec fn canonical(self) -> bool {
        self.blocked == self.block_sight
    }
}

} // verus!
