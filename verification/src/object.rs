use vstd::prelude::*;

verus! {

use vstd::string::StringExecFns;

use crate::grid::Grid;

/// A game entity: something with a position that may block movement.
/// Presentation details (glyphs, colors) live with the renderer, not here;
/// the world model only cares whether a cell can be occupied.
#[derive(Debug)]
pub struct Object {
    pub x: i32,
    pub y: i32,
    pub name: String,
    pub blocks: bool,
    pub alive: bool,
}

/// Some entity that blocks movement currently occupies `(x, y)`.
pub open spec fn spec_occupied(objs: Seq<Object>, x: int, y: int) -> bool {
    exists|i: int| 0 <= i < objs.len() && objs[i].blocks && objs[i].x == x && objs[i].y == y
}

/// A cell refuses entry iff its tile is blocked or a blocking entity
/// stands on it.
pub open spec fn spec_is_blocked(g: Grid, objs: Seq<Object>, x: int, y: int) -> bool {
    g.spec_at(x, y).blocked || spec_occupied(objs, x, y)
}

impl Object {
    pub fn new(x: i32, y: i32, name: &str, blocks: bool) -> (o: Object)
        ensures
            o.x == x,
            o.y == y,
            o.name@ == name@,
            o.blocks == blocks,
            !o.alive,
    {
        Object { x, y, name: String::from_str(name), blocks, alive: false }
    }

    pub fn pos(&self) -> (p: (i32, i32))
        ensures
            p.0 == self.x,
            p.1 == self.y,
    {
        (self.x, self.y)
    }

    pub fn set_pos(&mut self, x: i32, y: i32)
        ensures
            final(self).x == x,
            final(self).y == y,
            final(self).name == old(self).name,
            final(self).blocks == old(self).blocks,
            final(self).alive == old(self).alive,
    {
        self.x = x;
        self.y = y;
    }

    pub fn set_pos_tup(&mut self, pos: (i32, i32))
        ensures
            final(self).x == pos.0,
            final(self).y == pos.1,
            final(self).name == old(self).name,
            final(self).blocks == old(self).blocks,
            final(self).alive == old(self).alive,
    {
        self.x = pos.0;
        self.y = pos.1;
    }

    /// Move by the given amount if the destination tile is in bounds and
    /// not blocked by the map; entities are not consulted here.
    pub fn move_by(&mut self, map: &Grid, dx: i32, dy: i32)
        requires
            map.wf(),
            i32::MIN <= old(self).x + dx <= i32::MAX,
            i32::MIN <= old(self).y + dy <= i32::MAX,
        ensures
            ({
                let nx = old(self).x + dx;
                let ny = old(self).y + dy;
                if map.spec_in_bounds(nx, ny) && !map.spec_at(nx, ny).blocked {
                    final(self).x == nx && final(self).y == ny
                } else {
                    final(self).x == old(self).x && final(self).y == old(self).y
                }
            }),
            final(self).name == old(self).name,
            final(self).blocks == old(self).blocks,
            final(self).alive == old(self).alive,
    {
        let new_x: i32 = self.x + dx;
        let new_y: i32 = self.y + dy;

        let in_bounds: bool = map.in_bounds(new_x, new_y);
        let not_blocked: bool = !map.at(new_x, new_y).blocked;

        if not_blocked && in_bounds {
            self.x = new_x;
            self.y = new_y;
        }
    }
}

/// Whether `(x, y)` refuses entry, first by the map tile, then by any
/// blocking entity standing there.
pub fn is_blocked(x: i32, y: i32, map: &Grid, objects: &Vec<Object>) -> (r: bool)
    requires
        map.wf(),
    ensures
        r == spec_is_blocked(*map, objects@, x as int, y as int),
{
    let map_blocked: bool = map.at(x, y).blocked;
    if map_blocked {
        return true;
    }

    let mut i: usize = 0;
    while i < objects.len()
        invariant
            i <= objects@.len(),
            forall|j: int|
                0 <= j < i ==> !(objects@[j].blocks && objects@[j].x == x && objects@[j].y == y),
        decreases objects@.len() - i,
    {
        if objects[i].blocks && objects[i].x == x && objects[i].y == y {
            return true;
        }
        i = i + 1;
    }
    false
}

/// Move the entity at `id` by the given amount unless the destination is
/// blocked by the map or by a blocking entity.
pub fn move_by(id: usize, dx: i32, dy: i32, map: &Grid, objects: &mut Vec<Object>)
    requires
        map.wf(),
        id < old(objects)@.len(),
        i32::MIN <= old(objects)@[id as int].x + dx <= i32::MAX,
        i32::MIN <= old(objects)@[id as int].y + dy <= i32::MAX,
    ensures
        final(objects)@.len() == old(objects)@.len(),
        forall|j: int|
            0 <= j < old(objects)@.len() && j != id ==> final(objects)@[j] == old(objects)@[j],
        ({
            let nx = old(objects)@[id as int].x + dx;
            let ny = old(objects)@[id as int].y + dy;
            let moved = final(objects)@[id as int];
            let before = old(objects)@[id as int];
            &&& (if spec_is_blocked(*map, old(objects)@, nx, ny) {
                moved == before
            } else {
                moved.x == nx && moved.y == ny
            })
            &&& moved.name == before.name
            &&& moved.blocks == before.blocks
            &&& moved.alive == before.alive
        }),
{
    let (x, y): (i32, i32) = objects[id].pos();
    let new_x: i32 = x + dx;
    let new_y: i32 = y + dy;
    if !is_blocked(new_x, new_y, map, objects) {
        objects[id].set_pos(new_x, new_y);
    }
}

} // verus!
