use vstd::prelude::*;

verus! {

use crate::grid::Grid;
use crate::object::is_blocked;
use crate::object::Object;
use crate::rng::rng_range;
use crate::rooms::ORC_CHANCE_PERCENT;
use crate::tile::Tile;

pub const CAVE_EMPTY_CHANCE_PERCENT: i32 = 46;

pub const CAVE_SIM_STEPS: i32 = 6;

pub const CAVE_DEATH_LIMIT: i32 = 3;

pub const CAVE_BIRTH_LIMIT: i32 = 4;

pub const CAVE_MAX_SPAWN_ATTEMPTS: i32 = 200;

pub const CAVE_DESIRED_MONSTERS: i32 = 15;

/// 1 when the neighbour at offset `(dx, dy)` from `(x, y)` is an in-bounds
/// empty cell, else 0; an off-grid neighbour counts as non-empty.
pub open spec fn nb_empty(g: Grid, x: int, y: int, dx: int, dy: int) -> int {
    if g.spec_in_bounds(x + dx, y + dy) && !g.spec_at(x + dx, y + dy).spec_is_wall() {
        1
    } else {
        0
    }
}

/// How many of the eight neighbours of `(x, y)` are empty cells; a
/// neighbour outside the grid counts as non-empty, so a cell whose whole
/// neighbourhood is off-grid counts zero.
pub open spec fn spec_count_empty_neighbours(g: Grid, x: int, y: int) -> int {
    nb_empty(g, x, y, -1, -1) + nb_empty(g, x, y, -1, 0) + nb_empty(g, x, y, -1, 1) + nb_empty(
        g, x, y, 0, -1) + nb_empty(g, x, y, 0, 1) + nb_empty(g, x, y, 1, -1) + nb_empty(
        g, x, y, 1, 0) + nb_empty(g, x, y, 1, 1)
}

/// The next state of cell `(x, y)` under one smoothing step: an empty cell
/// with fewer than `CAVE_DEATH_LIMIT` empty neighbours fills in, a wall
/// cell with more than `CAVE_BIRTH_LIMIT` empty neighbours opens up, and
/// every other cell keeps its kind.
pub open spec fn cave_rule(g: Grid, x: int, y: int) -> Tile {
    let c = spec_count_empty_neighbours(g, x, y);
    if !g.spec_at(x, y).spec_is_wall() {
        if c < CAVE_DEATH_LIMIT {
            Tile::wall_spec()
        } else {
            Tile::empty_spec()
        }
    } else {
        if c > CAVE_BIRTH_LIMIT {
            Tile::empty_spec()
        } else {
            Tile::wall_spec()
        }
    }
}

/// Every in-bounds cell with all eight neighbours off-grid has no empty
/// neighbour at all, since out-of-bounds counts as non-empty.
pub proof fn lemma_isolated_cell_has_no_empty_neighbours(g: Grid, x: int, y: int)
    requires
        g.spec_width() == 1,
        g.spec_height() == 1,
        g.spec_in_bounds(x, y),
    ensures
        spec_count_empty_neighbours(g, x, y) == 0,
{
}

impl Grid {
    /// Contribution of the neighbour at offset `(dx, dy)` to the empty
    /// count of `(x, y)`.
    fn empty_neighbour(&self, x: i32, y: i32, dx: i32, dy: i32) -> (c: i32)
        requires
            self.wf(),
            self.spec_in_bounds(x as int, y as int),
            -1 <= dx <= 1,
            -1 <= dy <= 1,
        ensures
            c == nb_empty(*self, x as int, y as int, dx as int, dy as int),
    {
        let nx: i32 = x + dx;
        let ny: i32 = y + dy;
        if self.in_bounds(nx, ny) && !self.at(nx, ny).is_wall() {
            1
        } else {
            0
        }
    }

    pub fn count_empty_neighbours(&self, x: i32, y: i32) -> (count: i32)
        requires
            self.wf(),
            self.spec_in_bounds(x as int, y as int),
        ensures
            count == spec_count_empty_neighbours(*self, x as int, y as int),
            0 <= count <= 8,
    {
        let mut count: i32 = 0;
        count = count + self.empty_neighbour(x, y, -1, -1);
        count = count + self.empty_neighbour(x, y, -1, 0);
        count = count + self.empty_neighbour(x, y, -1, 1);
        count = count + self.empty_neighbour(x, y, 0, -1);
        count = count + self.empty_neighbour(x, y, 0, 1);
        count = count + self.empty_neighbour(x, y, 1, -1);
        count = count + self.empty_neighbour(x, y, 1, 0);
        count = count + self.empty_neighbour(x, y, 1, 1);
        count
    }

    /// One smoothing pass of the cellular automaton. The whole next grid
    /// is computed from the previous one before it replaces it, so every
    /// neighbour count reads the previous generation only; the result is a
    /// pure function of the grid this was called on.
    pub fn caves_sim_step(&mut self)
        requires
            old(self).wf(),
        ensures
            final(self).wf(),
            final(self).spec_width() == old(self).spec_width(),
            final(self).spec_height() == old(self).spec_height(),
            forall|x: int, y: int|
                final(self).spec_in_bounds(x, y) ==> #[trigger] final(self).spec_at(x, y)
                    == cave_rule(*old(self), x, y),
    {
        let width: i32 = self.width();
        let height: i32 = self.height();
        let mut new_map: Grid = Grid::new(width, height, Tile::wall());

        let mut x: i32 = 0;
        while x < width
            invariant
                *self == *old(self),
                self.wf(),
                width == self.spec_width(),
                height == self.spec_height(),
                new_map.wf(),
                new_map.spec_width() == width,
                new_map.spec_height() == height,
                0 <= x <= width,
                forall|xx: int, yy: int|
                    self.spec_in_bounds(xx, yy) && xx < x ==> #[trigger] new_map.spec_at(xx, yy)
                        == cave_rule(*old(self), xx, yy),
            decreases width - x,
        {
            let mut y: i32 = 0;
            while y < height
                invariant
                    *self == *old(self),
                    self.wf(),
                    width == self.spec_width(),
                    height == self.spec_height(),
                    new_map.wf(),
                    new_map.spec_width() == width,
                    new_map.spec_height() == height,
                    0 <= x < width,
                    0 <= y <= height,
                    forall|xx: int, yy: int|
                        self.spec_in_bounds(xx, yy) && (xx < x || (xx == x && yy < y))
                            ==> #[trigger] new_map.spec_at(xx, yy) == cave_rule(*old(self), xx, yy),
                decreases height - y,
            {
                let empty_neighbor_count: i32 = self.count_empty_neighbours(x, y);

                if !self.at(x, y).is_wall() {
                    if empty_neighbor_count < CAVE_DEATH_LIMIT {
                        new_map.set(x, y, Tile::wall());
                    } else {
                        new_map.set(x, y, Tile::empty());
                    }
                } else {
                    if empty_neighbor_count > CAVE_BIRTH_LIMIT {
                        new_map.set(x, y, Tile::empty());
                    } else {
                        new_map.set(x, y, Tile::wall());
                    }
                }
                y = y + 1;
            }
            x = x + 1;
        }
        *self = new_map;
    }

    /// Produce an organic cave layout: seed the grid with random noise,
    /// smooth it with a fixed number of automaton passes, then scatter
    /// monsters by rejection sampling against the blocking predicate,
    /// until the target count is reached or the attempt budget runs out.
    /// Exhausting the budget only lowers the monster count; it is not an
    /// error, and neither is a cave that came out all wall. Since every
    /// accepted cell fails the blocking test against the monsters already
    /// placed, no two spawned monsters share a cell.
    pub fn create_caves(
        width: i32,
        height: i32,
        rng: &mut rand::rngs::StdRng,
        objects: &mut Vec<Object>,
    ) -> (m: Grid)
        requires
            1 <= width,
            1 <= height,
            width * height <= i32::MAX,
        ensures
            m.wf(),
            m.spec_width() == width,
            m.spec_height() == height,
            final(objects)@.len() >= old(objects)@.len(),
            final(objects)@.len() <= old(objects)@.len() + CAVE_DESIRED_MONSTERS,
            forall|j: int| 0 <= j < old(objects)@.len() ==> final(objects)@[j] == old(objects)@[j],
            forall|j1: int, j2: int|
                #![trigger final(objects)@[j1], final(objects)@[j2]]
                old(objects)@.len() <= j1 < j2 < final(objects)@.len()
                    ==> !(final(objects)@[j1].x == final(objects)@[j2].x
                    && final(objects)@[j1].y == final(objects)@[j2].y),
            forall|j: int|
                #![trigger final(objects)@[j]]
                old(objects)@.len() <= j < final(objects)@.len() ==> {
                    let o = final(objects)@[j];
                    &&& o.blocks
                    &&& o.alive
                    &&& m.spec_in_bounds(o.x as int, o.y as int)
                    &&& !m.spec_at(o.x as int, o.y as int).blocked
                    &&& (o.name@ == "orc"@ || o.name@ == "troll"@)
                },
            forall|x: int, y: int|
                m.spec_in_bounds(x, y) ==> (#[trigger] m.spec_at(x, y) == Tile::wall_spec()
                    || m.spec_at(x, y) == Tile::empty_spec()),
    {
        let mut map: Grid = Grid::new(width, height, Tile::wall());

        let mut x: i32 = 0;
        while x < width
            invariant
                map.wf(),
                map.spec_width() == width,
                map.spec_height() == height,
                0 <= x <= width,
                forall|xx: int, yy: int|
                    map.spec_in_bounds(xx, yy) ==> (#[trigger] map.spec_at(xx, yy)
                        == Tile::wall_spec() || map.spec_at(xx, yy) == Tile::empty_spec()),
            decreases width - x,
        {
            let mut y: i32 = 0;
            while y < height
                invariant
                    map.wf(),
                    map.spec_width() == width,
                    map.spec_height() == height,
                    0 <= x < width,
                    0 <= y <= height,
                    forall|xx: int, yy: int|
                        map.spec_in_bounds(xx, yy) ==> (#[trigger] map.spec_at(xx, yy)
                            == Tile::wall_spec() || map.spec_at(xx, yy) == Tile::empty_spec()),
                decreases height - y,
            {
                let chance: i32 = rng_range(rng, 0, 100);
                if chance < CAVE_EMPTY_CHANCE_PERCENT {
                    map.set(x, y, Tile::empty());
                }
                y = y + 1;
            }
            x = x + 1;
        }

        let mut step: i32 = 0;
        while step < CAVE_SIM_STEPS
            invariant
                map.wf(),
                map.spec_width() == width,
                map.spec_height() == height,
                0 <= step <= CAVE_SIM_STEPS,
                forall|xx: int, yy: int|
                    map.spec_in_bounds(xx, yy) ==> (#[trigger] map.spec_at(xx, yy)
                        == Tile::wall_spec() || map.spec_at(xx, yy) == Tile::empty_spec()),
            decreases CAVE_SIM_STEPS - step,
        {
            map.caves_sim_step();
            step = step + 1;
        }

        let mut spawn_attempts: i32 = 0;
        let mut spawn_amount: i32 = 0;

        while spawn_attempts < CAVE_MAX_SPAWN_ATTEMPTS && spawn_amount < CAVE_DESIRED_MONSTERS
            invariant
                map.wf(),
                map.spec_width() == width,
                map.spec_height() == height,
                0 <= spawn_attempts <= CAVE_MAX_SPAWN_ATTEMPTS,
                0 <= spawn_amount <= CAVE_DESIRED_MONSTERS,
                objects@.len() == old(objects)@.len() + spawn_amount,
                forall|j: int| 0 <= j < old(objects)@.len() ==> objects@[j] == old(objects)@[j],
                forall|j1: int, j2: int|
                    #![trigger objects@[j1], objects@[j2]]
                    old(objects)@.len() <= j1 < j2 < objects@.len()
                        ==> !(objects@[j1].x == objects@[j2].x && objects@[j1].y == objects@[j2].y),
                forall|j: int|
                    #![trigger objects@[j]]
                    old(objects)@.len() <= j < objects@.len() ==> {
                        let o = objects@[j];
                        &&& o.blocks
                        &&& o.alive
                        &&& map.spec_in_bounds(o.x as int, o.y as int)
                        &&& !map.spec_at(o.x as int, o.y as int).blocked
                        &&& (o.name@ == "orc"@ || o.name@ == "troll"@)
                    },
            decreases CAVE_MAX_SPAWN_ATTEMPTS - spawn_attempts,
        {
            let sx: i32 = rng_range(rng, 0, width);
            let sy: i32 = rng_range(rng, 0, height);

            let tile_blocked: bool = is_blocked(sx, sy, &map, objects);

            if !tile_blocked {
                let roll: i32 = rng_range(rng, 0, 100);
                let mut monster: Object = if roll < ORC_CHANCE_PERCENT {
                    Object::new(sx, sy, "orc", true)
                } else {
                    Object::new(sx, sy, "troll", true)
                };
                monster.alive = true;
                objects.push(monster);
                spawn_amount = spawn_amount + 1;
            }
            spawn_attempts = spawn_attempts + 1;
        }

        map
    }
}

} // verus!
