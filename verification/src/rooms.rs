use vstd::prelude::*;

verus! {

use crate::grid::Grid;
use crate::object::Object;
use crate::rect::Rect;
use crate::rng::rng_range;
use crate::tile::Tile;

pub const ROOM_MAX_SIZE: i32 = 10;

pub const ROOM_MIN_SIZE: i32 = 6;

pub const MAX_ROOMS: i32 = 40;

pub const MAX_ROOM_MONSTERS: i32 = 3;

pub const ORC_CHANCE_PERCENT: i32 = 80;

/// The room sits inside the grid with room to keep its one-cell perimeter:
/// corners ordered, and the far edge strictly inside the bounds.
pub open spec fn room_in_grid(r: Rect, width: int, height: int) -> bool {
    &&& 0 <= r.x1 < r.x2 < width
    &&& 0 <= r.y1 < r.y2 < height
}

/// Both sides of the room are within the sampled size range.
pub open spec fn room_size_ok(r: Rect) -> bool {
    &&& ROOM_MIN_SIZE <= r.x2 - r.x1 <= ROOM_MAX_SIZE
    &&& ROOM_MIN_SIZE <= r.y2 - r.y1 <= ROOM_MAX_SIZE
}

/// No two accepted rooms intersect under the edge-inclusive test, so rooms
/// never touch, not even along a border.
pub open spec fn rooms_disjoint(rooms: Seq<Rect>) -> bool {
    forall|i: int, j: int|
        0 <= i < j < rooms.len() ==> !(#[trigger] rooms[i]).spec_intersects(#[trigger] rooms[j])
}

/// A room's center cell: the midpoint of its corners, rounded down.
pub open spec fn rect_center(r: Rect) -> (int, int) {
    ((r.x1 + r.x2) / 2, (r.y1 + r.y2) / 2)
}

/// `(x, y)` lies on the 1-wide horizontal segment at `row` joining columns
/// `x1` and `x2`, both ends included.
pub open spec fn on_h_leg(x: int, y: int, x1: int, x2: int, row: int) -> bool {
    y == row && vstd::math::min(x1, x2) <= x <= vstd::math::max(x1, x2)
}

/// `(x, y)` lies on the 1-wide vertical segment at `col` joining rows
/// `y1` and `y2`, both ends included.
pub open spec fn on_v_leg(x: int, y: int, y1: int, y2: int, col: int) -> bool {
    x == col && vstd::math::min(y1, y2) <= y <= vstd::math::max(y1, y2)
}

/// `(x, y)` lies on the L-shaped corridor joining centers `a` and `b`:
/// horizontal-first runs along `a`'s row and then `b`'s column, and
/// vertical-first along `a`'s column and then `b`'s row, so either way the
/// walk from one center to the other is straight with at most one
/// right-angle turn.
pub open spec fn on_l_path(x: int, y: int, a: (int, int), b: (int, int), horizontal_first: bool) -> bool {
    if horizontal_first {
        on_h_leg(x, y, a.0, b.0, a.1) || on_v_leg(x, y, a.1, b.1, b.0)
    } else {
        on_v_leg(x, y, a.1, b.1, a.0) || on_h_leg(x, y, a.0, b.0, b.1)
    }
}

/// `(x, y)` lies strictly inside some accepted room's perimeter.
pub open spec fn in_some_interior(rooms: Seq<Rect>, x: int, y: int) -> bool {
    exists|i: int| 0 <= i < rooms.len() && (#[trigger] rooms[i]).spec_in_interior(x, y)
}

/// `(x, y)` lies on the corridor joining some pair of consecutive room
/// centers; `coins[i]` records whether the corridor into room `i` took its
/// horizontal leg first.
pub open spec fn on_some_corridor(rooms: Seq<Rect>, coins: Seq<bool>, x: int, y: int) -> bool {
    exists|i: int|
        1 <= i < rooms.len() && on_l_path(
            x,
            y,
            rect_center(rooms[i - 1]),
            rect_center(#[trigger] rooms[i]),
            coins[i],
        )
}

/// The exact shape of a finished room level: a cell is open floor iff it
/// lies in some accepted room's interior or on a carved corridor leg, and
/// every other cell is wall.
pub open spec fn rooms_layout(g: Grid, rooms: Seq<Rect>, coins: Seq<bool>) -> bool {
    forall|x: int, y: int|
        g.spec_in_bounds(x, y) ==> #[trigger] g.spec_at(x, y) == (if in_some_interior(rooms, x, y)
            || on_some_corridor(rooms, coins, x, y) {
            Tile::empty_spec()
        } else {
            Tile::wall_spec()
        })
}

/// Extending the accepted prefix by one room adds exactly that room's
/// interior to the open-interior predicate.
proof fn lemma_interior_prefix_extend(rooms: Seq<Rect>, n: int, x: int, y: int)
    requires
        0 <= n < rooms.len(),
    ensures
        in_some_interior(rooms.take(n + 1), x, y) <==> (in_some_interior(rooms.take(n), x, y)
            || rooms[n].spec_in_interior(x, y)),
{
    let p_old = rooms.take(n);
    let p_new = rooms.take(n + 1);
    if in_some_interior(p_new, x, y) {
        let i = choose|i: int| 0 <= i < p_new.len() && (#[trigger] p_new[i]).spec_in_interior(x, y);
        if i < n {
            assert((p_old[i]).spec_in_interior(x, y));
        } else {
            assert((p_new[n]).spec_in_interior(x, y));
        }
    }
    if in_some_interior(p_old, x, y) {
        let i = choose|i: int| 0 <= i < p_old.len() && (#[trigger] p_old[i]).spec_in_interior(x, y);
        assert((p_new[i]).spec_in_interior(x, y));
    }
    if rooms[n].spec_in_interior(x, y) {
        assert((p_new[n]).spec_in_interior(x, y));
    }
}

/// Extending the accepted prefix by one room adds exactly the corridor
/// into that room (none for the first room) to the corridor predicate.
proof fn lemma_corridor_prefix_extend(
    rooms: Seq<Rect>,
    coins_old: Seq<bool>,
    coins_new: Seq<bool>,
    n: int,
    x: int,
    y: int,
)
    requires
        0 <= n < rooms.len(),
        coins_old.len() == n,
        coins_new.len() == n + 1,
        forall|i: int| 0 <= i < n ==> coins_new[i] == coins_old[i],
    ensures
        on_some_corridor(rooms.take(n + 1), coins_new, x, y) <==> (on_some_corridor(
            rooms.take(n),
            coins_old,
            x,
            y,
        ) || (n >= 1 && on_l_path(
            x,
            y,
            rect_center(rooms[n - 1]),
            rect_center(rooms[n]),
            coins_new[n],
        ))),
{
    let p_old = rooms.take(n);
    let p_new = rooms.take(n + 1);
    if on_some_corridor(p_new, coins_new, x, y) {
        let i = choose|i: int|
            1 <= i < p_new.len() && on_l_path(
                x,
                y,
                rect_center(p_new[i - 1]),
                rect_center(#[trigger] p_new[i]),
                coins_new[i],
            );
        if i < n {
            assert(on_l_path(
                x,
                y,
                rect_center(p_old[i - 1]),
                rect_center(#[trigger] p_old[i]),
                coins_old[i],
            ));
        } else {
            assert(p_new[n] == rooms[n] && p_new[n - 1] == rooms[n - 1]);
        }
    }
    if on_some_corridor(p_old, coins_old, x, y) {
        let i = choose|i: int|
            1 <= i < p_old.len() && on_l_path(
                x,
                y,
                rect_center(p_old[i - 1]),
                rect_center(#[trigger] p_old[i]),
                coins_old[i],
            );
        assert(on_l_path(
            x,
            y,
            rect_center(p_new[i - 1]),
            rect_center(#[trigger] p_new[i]),
            coins_new[i],
        ));
    }
    if n >= 1 && on_l_path(x, y, rect_center(rooms[n - 1]), rect_center(rooms[n]), coins_new[n]) {
        assert(on_l_path(
            x,
            y,
            rect_center(p_new[n - 1]),
            rect_center(#[trigger] p_new[n]),
            coins_new[n],
        ));
    }
}

/// Whether the candidate room intersects any already accepted one.
fn intersects_any(rooms: &Vec<Rect>, candidate: &Rect) -> (b: bool)
    ensures
        b == exists|i: int| 0 <= i < rooms@.len() && candidate.spec_intersects(#[trigger] rooms@[i]),
{
    let mut i: usize = 0;
    while i < rooms.len()
        invariant
            i <= rooms@.len(),
            forall|j: int| 0 <= j < i ==> !candidate.spec_intersects(#[trigger] rooms@[j]),
        decreases rooms@.len() - i,
    {
        if candidate.intersects_with(&rooms[i]) {
            return true;
        }
        i = i + 1;
    }
    false
}

/// Sample up to `MAX_ROOMS` candidate rooms, keeping each one only if it
/// intersects none of those already kept. The attempt budget is a cap, not
/// a promised count; an unlucky run may keep few rooms. One room is always
/// kept, though: the first candidate is tested against an empty list and
/// can never be rejected.
pub fn plan_rooms(width: i32, height: i32, rng: &mut rand::rngs::StdRng) -> (rooms: Vec<Rect>)
    requires
        ROOM_MAX_SIZE < width,
        ROOM_MAX_SIZE < height,
    ensures
        1 <= rooms@.len() <= MAX_ROOMS,
        forall|i: int|
            0 <= i < rooms@.len() ==> room_in_grid(#[trigger] rooms@[i], width as int, height as int)
                && room_size_ok(rooms@[i]),
        rooms_disjoint(rooms@),
{
    let mut rooms: Vec<Rect> = Vec::new();
    let mut attempt: i32 = 0;
    while attempt < MAX_ROOMS
        invariant
            ROOM_MAX_SIZE < width,
            ROOM_MAX_SIZE < height,
            0 <= attempt <= MAX_ROOMS,
            rooms@.len() <= attempt,
            attempt > 0 ==> rooms@.len() >= 1,
            forall|i: int|
                0 <= i < rooms@.len() ==> room_in_grid(
                    #[trigger] rooms@[i],
                    width as int,
                    height as int,
                ) && room_size_ok(rooms@[i]),
            rooms_disjoint(rooms@),
        decreases MAX_ROOMS - attempt,
    {
        let w: i32 = rng_range(rng, ROOM_MIN_SIZE, ROOM_MAX_SIZE + 1);
        let h: i32 = rng_range(rng, ROOM_MIN_SIZE, ROOM_MAX_SIZE + 1);
        let x: i32 = rng_range(rng, 0, width - w);
        let y: i32 = rng_range(rng, 0, height - h);
        let new_room: Rect = Rect::new(x, y, w, h);

        let failed: bool = intersects_any(&rooms, &new_room);
        if !failed {
            rooms.push(new_room);
        }
        attempt = attempt + 1;
    }
    rooms
}

/// The centers of a room with both sides of length two or more lie
/// strictly inside its perimeter.
proof fn lemma_center_in_interior(room: Rect)
    requires
        0 <= room.x1,
        0 <= room.y1,
        room.x2 - room.x1 >= 2,
        room.y2 - room.y1 >= 2,
    ensures
        room.spec_in_interior((room.x1 + room.x2) / 2, (room.y1 + room.y2) / 2),
{
    let cx = (room.x1 + room.x2) / 2;
    let cy = (room.y1 + room.y2) / 2;
    assert(2 * cx <= room.x1 + room.x2 < 2 * cx + 2);
    assert(2 * cy <= room.y1 + room.y2 < 2 * cy + 2);
}

impl Grid {
    /// Carve the interior of `room` to floor, leaving its one-cell
    /// perimeter as it was; every cell outside the interior is untouched.
    pub fn create_room(&mut self, room: Rect)
        requires
            old(self).wf(),
            0 <= room.x1 < room.x2,
            room.x2 <= old(self).spec_width(),
            0 <= room.y1 < room.y2,
            room.y2 <= old(self).spec_height(),
        ensures
            final(self).wf(),
            final(self).spec_width() == old(self).spec_width(),
            final(self).spec_height() == old(self).spec_height(),
            forall|xx: int, yy: int|
                final(self).spec_at(xx, yy) == (if room.spec_in_interior(xx, yy) {
                    Tile::empty_spec()
                } else {
                    old(self).spec_at(xx, yy)
                }),
    {
        let mut x: i32 = room.x1 + 1;
        while x < room.x2
            invariant
                self.wf(),
                self.spec_width() == old(self).spec_width(),
                self.spec_height() == old(self).spec_height(),
                0 <= room.x1 < room.x2,
                room.x2 <= self.spec_width(),
                0 <= room.y1 < room.y2,
                room.y2 <= self.spec_height(),
                room.x1 < x,
                forall|xx: int, yy: int|
                    self.spec_at(xx, yy) == (if room.spec_in_interior(xx, yy) && xx < x {
                        Tile::empty_spec()
                    } else {
                        old(self).spec_at(xx, yy)
                    }),
            decreases room.x2 - x,
        {
            let mut y: i32 = room.y1 + 1;
            while y < room.y2
                invariant
                    self.wf(),
                    self.spec_width() == old(self).spec_width(),
                    self.spec_height() == old(self).spec_height(),
                    0 <= room.x1 < room.x2,
                    room.x2 <= self.spec_width(),
                    0 <= room.y1 < room.y2,
                    room.y2 <= self.spec_height(),
                    room.x1 < x < room.x2,
                    room.y1 < y,
                    forall|xx: int, yy: int|
                        self.spec_at(xx, yy) == (if room.spec_in_interior(xx, yy) && (xx < x || (
                        xx == x && yy < y)) {
                            Tile::empty_spec()
                        } else {
                            old(self).spec_at(xx, yy)
                        }),
                decreases room.y2 - y,
            {
                self.set(x, y, Tile::empty());
                y = y + 1;
            }
            x = x + 1;
        }
    }

    /// Carve a 1-tile-wide vertical corridor at column `x` covering every
    /// row between `y1` and `y2`, both ends included; nothing else changes.
    pub fn create_v_tunnel(&mut self, y1: i32, y2: i32, x: i32)
        requires
            old(self).wf(),
            0 <= x < old(self).spec_width(),
            0 <= y1 < old(self).spec_height(),
            0 <= y2 < old(self).spec_height(),
        ensures
            final(self).wf(),
            final(self).spec_width() == old(self).spec_width(),
            final(self).spec_height() == old(self).spec_height(),
            forall|xx: int, yy: int|
                final(self).spec_at(xx, yy) == (if xx == x && vstd::math::min(y1 as int, y2 as int)
                    <= yy <= vstd::math::max(y1 as int, y2 as int) {
                    Tile::empty_spec()
                } else {
                    old(self).spec_at(xx, yy)
                }),
    {
        let lo: i32 = if y1 < y2 {
            y1
        } else {
            y2
        };
        let hi: i32 = if y1 < y2 {
            y2
        } else {
            y1
        };
        let mut y: i32 = lo;
        while y < hi + 1
            invariant
                self.wf(),
                self.spec_width() == old(self).spec_width(),
                self.spec_height() == old(self).spec_height(),
                0 <= x < self.spec_width(),
                0 <= lo <= hi < self.spec_height(),
                lo == vstd::math::min(y1 as int, y2 as int),
                hi == vstd::math::max(y1 as int, y2 as int),
                lo <= y <= hi + 1,
                forall|xx: int, yy: int|
                    self.spec_at(xx, yy) == (if xx == x && lo <= yy < y {
                        Tile::empty_spec()
                    } else {
                        old(self).spec_at(xx, yy)
                    }),
            decreases hi + 1 - y,
        {
            self.set(x, y, Tile::empty());
            y = y + 1;
        }
    }

    /// Carve a 1-tile-wide horizontal corridor at row `y` covering every
    /// column between `x1` and `x2`, both ends included; nothing else
    /// changes.
    pub fn create_h_tunnel(&mut self, x1: i32, x2: i32, y: i32)
        requires
            old(self).wf(),
            0 <= y < old(self).spec_height(),
            0 <= x1 < old(self).spec_width(),
            0 <= x2 < old(self).spec_width(),
        ensures
            final(self).wf(),
            final(self).spec_width() == old(self).spec_width(),
            final(self).spec_height() == old(self).spec_height(),
            forall|xx: int, yy: int|
                final(self).spec_at(xx, yy) == (if yy == y && vstd::math::min(x1 as int, x2 as int)
                    <= xx <= vstd::math::max(x1 as int, x2 as int) {
                    Tile::empty_spec()
                } else {
                    old(self).spec_at(xx, yy)
                }),
    {
        let lo: i32 = if x1 < x2 {
            x1
        } else {
            x2
        };
        let hi: i32 = if x1 < x2 {
            x2
        } else {
            x1
        };
        let mut x: i32 = lo;
        while x < hi + 1
            invariant
                self.wf(),
                self.spec_width() == old(self).spec_width(),
                self.spec_height() == old(self).spec_height(),
                0 <= y < self.spec_height(),
                0 <= lo <= hi < self.spec_width(),
                lo == vstd::math::min(x1 as int, x2 as int),
                hi == vstd::math::max(x1 as int, x2 as int),
                lo <= x <= hi + 1,
                forall|xx: int, yy: int|
                    self.spec_at(xx, yy) == (if yy == y && lo <= xx < x {
                        Tile::empty_spec()
                    } else {
                        old(self).spec_at(xx, yy)
                    }),
            decreases hi + 1 - x,
        {
            self.set(x, y, Tile::empty());
            x = x + 1;
        }
    }

    /// Scatter a uniform-random number of monsters, at most
    /// `MAX_ROOM_MONSTERS`, at uniform-random spots inside the room's
    /// interior. Spawns may land on the same cell; that is accepted.
    pub fn place_objects(room: Rect, rng: &mut rand::rngs::StdRng, objects: &mut Vec<Object>)
        requires
            room.x1 + 1 < room.x2,
            room.y1 + 1 < room.y2,
        ensures
            final(objects)@.len() >= old(objects)@.len(),
            final(objects)@.len() <= old(objects)@.len() + MAX_ROOM_MONSTERS,
            forall|j: int| 0 <= j < old(objects)@.len() ==> final(objects)@[j] == old(objects)@[j],
            forall|j: int|
                #![trigger final(objects)@[j]]
                old(objects)@.len() <= j < final(objects)@.len() ==> {
                    let o = final(objects)@[j];
                    &&& o.blocks
                    &&& o.alive
                    &&& room.spec_in_interior(o.x as int, o.y as int)
                    &&& (o.name@ == "orc"@ || o.name@ == "troll"@)
                },
    {
        let num_monsters: i32 = rng_range(rng, 0, MAX_ROOM_MONSTERS + 1);

        let mut k: i32 = 0;
        while k < num_monsters
            invariant
                0 <= k <= num_monsters <= MAX_ROOM_MONSTERS,
                room.x1 + 1 < room.x2,
                room.y1 + 1 < room.y2,
                objects@.len() >= old(objects)@.len(),
                objects@.len() <= old(objects)@.len() + k,
                forall|j: int| 0 <= j < old(objects)@.len() ==> objects@[j] == old(objects)@[j],
                forall|j: int|
                    #![trigger objects@[j]]
                    old(objects)@.len() <= j < objects@.len() ==> {
                        let o = objects@[j];
                        &&& o.blocks
                        &&& o.alive
                        &&& room.spec_in_interior(o.x as int, o.y as int)
                        &&& (o.name@ == "orc"@ || o.name@ == "troll"@)
                    },
            decreases num_monsters - k,
        {
            let x: i32 = rng_range(rng, room.x1 + 1, room.x2);
            let y: i32 = rng_range(rng, room.y1 + 1, room.y2);

            let roll: i32 = rng_range(rng, 0, 100);
            let mut monster: Object = if roll < ORC_CHANCE_PERCENT {
                Object::new(x, y, "orc", true)
            } else {
                Object::new(x, y, "troll", true)
            };
            monster.alive = true;
            objects.push(monster);
            k = k + 1;
        }
    }

    /// Carve the planned rooms into an all-wall grid, join each room's
    /// center to the previous one's with an L-shaped corridor whose leg
    /// order is a 50/50 coin, scatter monsters into each room as it is
    /// carved, and return the grid with the first room's center as the
    /// starting position. The resulting layout is exact: a cell is floor
    /// iff it lies in some planned room's interior or on a carved
    /// corridor.
    pub fn carve_rooms(
        width: i32,
        height: i32,
        rooms: &Vec<Rect>,
        rng: &mut rand::rngs::StdRng,
        objects: &mut Vec<Object>,
    ) -> (r: (Grid, (i32, i32)))
        requires
            1 <= width,
            1 <= height,
            width * height <= i32::MAX,
            1 <= rooms@.len(),
            forall|i: int|
                0 <= i < rooms@.len() ==> room_in_grid(
                    #[trigger] rooms@[i],
                    width as int,
                    height as int,
                ) && room_size_ok(rooms@[i]),
        ensures
            r.0.wf(),
            r.0.spec_width() == width,
            r.0.spec_height() == height,
            (r.1.0 as int, r.1.1 as int) == rect_center(rooms@[0]),
            r.0.spec_in_bounds(r.1.0 as int, r.1.1 as int),
            !r.0.spec_at(r.1.0 as int, r.1.1 as int).blocked,
            exists|coins: Seq<bool>|
                #![auto]
                coins.len() == rooms@.len() && rooms_layout(r.0, rooms@, coins),
            final(objects)@.len() >= old(objects)@.len(),
            forall|j: int| 0 <= j < old(objects)@.len() ==> final(objects)@[j] == old(objects)@[j],
            forall|j: int|
                #![trigger final(objects)@[j]]
                old(objects)@.len() <= j < final(objects)@.len() ==> {
                    let o = final(objects)@[j];
                    &&& o.blocks
                    &&& o.alive
                    &&& (o.name@ == "orc"@ || o.name@ == "troll"@)
                    &&& exists|i: int|
                        0 <= i < rooms@.len() && (#[trigger] rooms@[i]).spec_in_interior(
                            o.x as int,
                            o.y as int,
                        )
                },
    {
        proof {
            assert(room_in_grid(rooms@[0], width as int, height as int) && room_size_ok(
                rooms@[0],
            ));
        }
        assert(2 * width <= i32::MAX && 2 * height <= i32::MAX) by (nonlinear_arith)
            requires
                2 <= width,
                2 <= height,
                width * height <= i32::MAX,
        ;

        let mut map: Grid = Grid::new(width, height, Tile::wall());
        let mut starting_position: (i32, i32) = (0, 0);
        let ghost mut coins: Seq<bool> = Seq::empty();

        let mut idx: usize = 0;
        while idx < rooms.len()
            invariant
                map.wf(),
                map.spec_width() == width,
                map.spec_height() == height,
                2 * width <= i32::MAX,
                2 * height <= i32::MAX,
                1 <= rooms@.len(),
                forall|i: int|
                    0 <= i < rooms@.len() ==> room_in_grid(
                        #[trigger] rooms@[i],
                        width as int,
                        height as int,
                    ) && room_size_ok(rooms@[i]),
                idx <= rooms@.len(),
                coins.len() == idx,
                idx >= 1 ==> (starting_position.0 as int, starting_position.1 as int)
                    == rect_center(rooms@[0]),
                forall|x: int, y: int|
                    map.spec_in_bounds(x, y) ==> #[trigger] map.spec_at(x, y) == (
                    if in_some_interior(rooms@.take(idx as int), x, y) || on_some_corridor(
                        rooms@.take(idx as int),
                        coins,
                        x,
                        y,
                    ) {
                        Tile::empty_spec()
                    } else {
                        Tile::wall_spec()
                    }),
                objects@.len() >= old(objects)@.len(),
                forall|j: int| 0 <= j < old(objects)@.len() ==> objects@[j] == old(objects)@[j],
                forall|j: int|
                    #![trigger objects@[j]]
                    old(objects)@.len() <= j < objects@.len() ==> {
                        let o = objects@[j];
                        &&& o.blocks
                        &&& o.alive
                        &&& (o.name@ == "orc"@ || o.name@ == "troll"@)
                        &&& exists|i: int|
                            0 <= i < idx && (#[trigger] rooms@[i]).spec_in_interior(
                                o.x as int,
                                o.y as int,
                            )
                    },
            decreases rooms@.len() - idx,
        {
            let room: Rect = rooms[idx];
            let ghost coins_old = coins;

            map.create_room(room);

            let (new_x, new_y): (i32, i32) = room.center();
            proof {
                lemma_center_in_interior(room);
            }

            Grid::place_objects(room, rng, objects);

            if idx == 0 {
                starting_position = (new_x, new_y);
                proof {
                    // the corridor predicate never reads the first entry
                    coins = coins.push(false);
                }
            } else {
                let prev: Rect = rooms[idx - 1];
                let (prev_x, prev_y): (i32, i32) = prev.center();

                let coin: i32 = rng_range(rng, 0, 2);
                if coin == 0 {
                    map.create_h_tunnel(prev_x, new_x, prev_y);
                    map.create_v_tunnel(prev_y, new_y, new_x);
                } else {
                    map.create_v_tunnel(prev_y, new_y, prev_x);
                    map.create_h_tunnel(prev_x, new_x, new_y);
                }
                proof {
                    coins = coins.push(coin == 0);
                }
            }

            proof {
                let n = idx as int;
                let prefix_new = rooms@.take(n + 1);
                assert forall|x: int, y: int| map.spec_in_bounds(x, y) implies #[trigger] map
                    .spec_at(x, y) == (if in_some_interior(prefix_new, x, y) || on_some_corridor(
                    prefix_new,
                    coins,
                    x,
                    y,
                ) {
                    Tile::empty_spec()
                } else {
                    Tile::wall_spec()
                }) by {
                    lemma_interior_prefix_extend(rooms@, n, x, y);
                    lemma_corridor_prefix_extend(rooms@, coins_old, coins, n, x, y);
                }
            }

            idx = idx + 1;
        }

        proof {
            assert(rooms@.take(rooms@.len() as int) =~= rooms@);
            lemma_center_in_interior(rooms@[0]);
            assert((rooms@[0]).spec_in_interior(
                rect_center(rooms@[0]).0,
                rect_center(rooms@[0]).1,
            ));
            assert(in_some_interior(
                rooms@,
                starting_position.0 as int,
                starting_position.1 as int,
            ));
            assert(coins.len() == rooms@.len() && rooms_layout(map, rooms@, coins));
        }
        (map, starting_position)
    }

    /// Produce an all-wall grid carved with up to `MAX_ROOMS` mutually
    /// non-intersecting rooms joined by L-shaped corridors, scatter
    /// monsters into the rooms, and return the grid together with the
    /// starting position. The first candidate room is tested against an
    /// empty list and can never be rejected, so at least one room is
    /// always carved and the start, that first room's center, always
    /// stands on open floor.
    pub fn create_random_rooms(
        width: i32,
        height: i32,
        rng: &mut rand::rngs::StdRng,
        objects: &mut Vec<Object>,
    ) -> (r: (Grid, (i32, i32)))
        requires
            ROOM_MAX_SIZE < width,
            ROOM_MAX_SIZE < height,
            width * height <= i32::MAX,
        ensures
            r.0.wf(),
            r.0.spec_width() == width,
            r.0.spec_height() == height,
            r.0.spec_in_bounds(r.1.0 as int, r.1.1 as int),
            !r.0.spec_at(r.1.0 as int, r.1.1 as int).blocked,
            final(objects)@.len() >= old(objects)@.len(),
            forall|j: int| 0 <= j < old(objects)@.len() ==> final(objects)@[j] == old(objects)@[j],
            forall|j: int|
                #![trigger final(objects)@[j]]
                old(objects)@.len() <= j < final(objects)@.len() ==> {
                    let o = final(objects)@[j];
                    &&& o.blocks
                    &&& o.alive
                    &&& (o.name@ == "orc"@ || o.name@ == "troll"@)
                    &&& r.0.spec_in_bounds(o.x as int, o.y as int)
                    &&& !r.0.spec_at(o.x as int, o.y as int).blocked
                },
            forall|x: int, y: int|
                r.0.spec_in_bounds(x, y) ==> (#[trigger] r.0.spec_at(x, y) == Tile::wall_spec()
                    || r.0.spec_at(x, y) == Tile::empty_spec()),
            exists|rooms: Seq<Rect>, coins: Seq<bool>|
                #![auto]
                {
                    &&& 1 <= rooms.len() <= MAX_ROOMS
                    &&& coins.len() == rooms.len()
                    &&& forall|i: int|
                        0 <= i < rooms.len() ==> room_in_grid(
                            #[trigger] rooms[i],
                            width as int,
                            height as int,
                        ) && room_size_ok(rooms[i])
                    &&& rooms_disjoint(rooms)
                    &&& (r.1.0 as int, r.1.1 as int) == rect_center(rooms[0])
                    &&& rooms_layout(r.0, rooms, coins)
                    &&& forall|j: int|
                        #![trigger final(objects)@[j]]
                        old(objects)@.len() <= j < final(objects)@.len() ==> exists|i: int|
                            0 <= i < rooms.len() && (#[trigger] rooms[i]).spec_in_interior(
                                final(objects)@[j].x as int,
                                final(objects)@[j].y as int,
                            )
                },
    {
        let rooms: Vec<Rect> = plan_rooms(width, height, rng);
        let r = Grid::carve_rooms(width, height, &rooms, rng, objects);
        proof {
            let coins = choose|c: Seq<bool>|
                c.len() == rooms@.len() && rooms_layout(r.0, rooms@, c);
            assert(rooms_layout(r.0, rooms@, coins));
            assert forall|j: int| old(objects)@.len() <= j < objects@.len() implies {
                let o = #[trigger] objects@[j];
                r.0.spec_in_bounds(o.x as int, o.y as int) && !r.0.spec_at(
                    o.x as int,
                    o.y as int,
                ).blocked
            } by {
                let o = objects@[j];
                let i = choose|i: int|
                    0 <= i < rooms@.len() && (#[trigger] rooms@[i]).spec_in_interior(
                        o.x as int,
                        o.y as int,
                    );
                assert(room_in_grid(rooms@[i], width as int, height as int));
                assert(in_some_interior(rooms@, o.x as int, o.y as int));
            }
        }
        r
    }
}

} // verus!
