use vstd::prelude::*;

verus! {

use crate::grid::grid_index;
use crate::grid::lemma_grid_index_bounds;
use crate::grid::Grid;
use crate::tile::Tile;

/// Chebyshev distance between two cells: the number of king-move steps a
/// walk from one to the other needs.
pub open spec fn cheb_dist(ox: int, oy: int, x: int, y: int) -> int {
    vstd::math::max(vstd::math::abs(x - ox) as int, vstd::math::abs(y - oy) as int)
}

/// One king-move step from `from` toward `to`.
pub open spec fn step_toward(from: int, to: int) -> int {
    if from < to {
        from + 1
    } else if from > to {
        from - 1
    } else {
        from
    }
}

/// Line of sight from the observer at `(ox, oy)` to `(x, y)` along the
/// king-move walk that closes both axes at once: clear iff every cell
/// strictly between the two endpoints is transparent. The target's own
/// opacity does not matter, so a lit wall is itself visible.
pub open spec fn los_clear(g: Grid, ox: int, oy: int, x: int, y: int) -> bool
    decreases cheb_dist(ox, oy, x, y),
{
    if x == ox && y == oy {
        true
    } else {
        let nx = step_toward(x, ox);
        let ny = step_toward(y, oy);
        if nx == ox && ny == oy {
            true
        } else {
            !g.spec_at(nx, ny).block_sight && los_clear(g, ox, oy, nx, ny)
        }
    }
}

/// The observer at `(ox, oy)` sees `(x, y)`: the cell is on the grid,
/// within the radius, and in line of sight.
pub open spec fn spec_sees(g: Grid, ox: int, oy: int, radius: int, x: int, y: int) -> bool {
    &&& g.spec_in_bounds(x, y)
    &&& cheb_dist(ox, oy, x, y) <= radius
    &&& los_clear(g, ox, oy, x, y)
}

/// With radius zero an in-bounds observer sees its own cell and nothing
/// else; a radius of at least one is needed to reveal any neighbour.
pub proof fn lemma_radius_zero_sees_only_observer(g: Grid, ox: int, oy: int, x: int, y: int)
    ensures
        spec_sees(g, ox, oy, 0, x, y) <==> (x == ox && y == oy && g.spec_in_bounds(x, y)),
{
}

/// Exploration marks survive chains of visibility passes: each `update`
/// promises that every explored tile stays explored, and that promise
/// composes, so no sequence of subsequent updates ever takes a tile's
/// `explored` flag back to false.
pub proof fn lemma_explored_monotone_composes(a: Grid, b: Grid, c: Grid)
    requires
        forall|x: int, y: int|
            #![trigger b.spec_at(x, y)]
            a.spec_at(x, y).explored ==> b.spec_at(x, y).explored,
        forall|x: int, y: int|
            #![trigger c.spec_at(x, y)]
            b.spec_at(x, y).explored ==> c.spec_at(x, y).explored,
    ensures
        forall|x: int, y: int|
            #![trigger c.spec_at(x, y)]
            a.spec_at(x, y).explored ==> c.spec_at(x, y).explored,
{
    assert forall|x: int, y: int| a.spec_at(x, y).explored implies #[trigger] c.spec_at(
        x,
        y,
    ).explored by {
        assert(b.spec_at(x, y).explored);
    }
}

/// Whether `(x, y)` is within `radius` of the observer and in line of
/// sight of it.
fn sees(map: &Grid, ox: i32, oy: i32, radius: i32, x: i32, y: i32) -> (v: bool)
    requires
        map.wf(),
        map.spec_in_bounds(ox as int, oy as int),
        map.spec_in_bounds(x as int, y as int),
        radius >= 0,
    ensures
        v == spec_sees(*map, ox as int, oy as int, radius as int, x as int, y as int),
{
    let dx: i32 = if x >= ox {
        x - ox
    } else {
        ox - x
    };
    let dy: i32 = if y >= oy {
        y - oy
    } else {
        oy - y
    };
    let d: i32 = if dx >= dy {
        dx
    } else {
        dy
    };
    if d > radius {
        return false;
    }
    los_walk(map, ox, oy, x, y)
}

/// Walk from the target back toward the observer, checking that every
/// strictly intermediate cell is transparent.
fn los_walk(map: &Grid, ox: i32, oy: i32, x: i32, y: i32) -> (clear: bool)
    requires
        map.wf(),
        map.spec_in_bounds(ox as int, oy as int),
        map.spec_in_bounds(x as int, y as int),
    ensures
        clear == los_clear(*map, ox as int, oy as int, x as int, y as int),
    decreases cheb_dist(ox as int, oy as int, x as int, y as int),
{
    if x == ox && y == oy {
        return true;
    }
    let nx: i32 = if x < ox {
        x + 1
    } else if x > ox {
        x - 1
    } else {
        x
    };
    let ny: i32 = if y < oy {
        y + 1
    } else if y > oy {
        y - 1
    } else {
        y
    };
    if nx == ox && ny == oy {
        return true;
    }
    if map.at(nx, ny).block_sight {
        return false;
    }
    los_walk(map, ox, oy, nx, ny)
}

/// Tracks which cells the observer currently sees, and folds every
/// sighting into the grid's monotone `explored` flags. `Unexplored` to
/// `Explored` is the only transition a tile ever makes, and it fires the
/// first time the tile turns up visible.
pub struct VisibilityTracker {
    visible: Vec<bool>,
    width: i32,
    height: i32,
}

impl VisibilityTracker {
    pub closed spec fn vis_seq(&self) -> Seq<bool> {
        self.visible@
    }

    pub closed spec fn spec_width(&self) -> int {
        self.width as int
    }

    pub closed spec fn spec_height(&self) -> int {
        self.height as int
    }

    pub open spec fn wf(&self) -> bool {
        &&& 1 <= self.spec_width() <= i32::MAX
        &&& 1 <= self.spec_height() <= i32::MAX
        &&& self.spec_width() * self.spec_height() <= i32::MAX
        &&& self.vis_seq().len() == self.spec_width() * self.spec_height()
    }

    /// Whether the tracker's last update found `(x, y)` visible;
    /// off-grid cells are never visible.
    pub open spec fn spec_visible(&self, x: int, y: int) -> bool {
        if 0 <= x < self.spec_width() && 0 <= y < self.spec_height() {
            self.vis_seq()[grid_index(x, y, self.spec_width())]
        } else {
            false
        }
    }

    /// A fresh tracker with nothing visible yet.
    pub fn new(width: i32, height: i32) -> (t: VisibilityTracker)
        requires
            1 <= width,
            1 <= height,
            width * height <= i32::MAX,
        ensures
            t.wf(),
            t.spec_width() == width,
            t.spec_height() == height,
            forall|x: int, y: int| !t.spec_visible(x, y),
    {
        assert(0 <= width * height) by (nonlinear_arith)
            requires
                1 <= width,
                1 <= height,
        ;
        let count: usize = (width * height) as usize;
        let mut visible: Vec<bool> = Vec::new();
        let mut i: usize = 0;
        while i < count
            invariant
                i <= count,
                visible@.len() == i,
                forall|k: int| 0 <= k < i ==> !visible@[k],
            decreases count - i,
        {
            visible.push(false);
            i = i + 1;
        }
        let t = VisibilityTracker { visible, width, height };
        proof {
            assert forall|x: int, y: int| !t.spec_visible(x, y) by {
                if 0 <= x < t.spec_width() && 0 <= y < t.spec_height() {
                    lemma_grid_index_bounds(x, y, width as int, height as int);
                }
            }
        }
        t
    }

    pub fn is_visible(&self, x: i32, y: i32) -> (v: bool)
        requires
            self.wf(),
        ensures
            v == self.spec_visible(x as int, y as int),
    {
        if x < 0 || y < 0 || x >= self.width || y >= self.height {
            return false;
        }
        proof {
            lemma_grid_index_bounds(x as int, y as int, self.spec_width(), self.spec_height());
        }
        let i: usize = (y * self.width + x) as usize;
        self.visible[i]
    }

    /// The per-turn visibility pass. An observer that has not moved since
    /// the previous turn is skipped and nothing changes at all. For a
    /// moved observer (the first turn hands in an impossible previous
    /// position to force this), the visible set is recomputed exactly from
    /// the grid and the observer's cell, and every visible cell's tile
    /// becomes explored; no tile's `explored` flag is ever cleared, and
    /// the `blocked` and `block_sight` fields never change.
    pub fn update(&mut self, map: &mut Grid, pos: (i32, i32), previous: (i32, i32), radius: i32)
        requires
            old(self).wf(),
            old(map).wf(),
            old(self).spec_width() == old(map).spec_width(),
            old(self).spec_height() == old(map).spec_height(),
            old(map).spec_in_bounds(pos.0 as int, pos.1 as int),
            radius >= 0,
        ensures
            final(self).wf(),
            final(map).wf(),
            final(self).spec_width() == old(self).spec_width(),
            final(self).spec_height() == old(self).spec_height(),
            final(map).spec_width() == old(map).spec_width(),
            final(map).spec_height() == old(map).spec_height(),
            forall|x: int, y: int|
                #![trigger final(map).spec_at(x, y)]
                final(map).spec_at(x, y).blocked == old(map).spec_at(x, y).blocked
                    && final(map).spec_at(x, y).block_sight == old(map).spec_at(x, y).block_sight,
            forall|x: int, y: int|
                #![trigger final(map).spec_at(x, y)]
                old(map).spec_at(x, y).explored ==> final(map).spec_at(x, y).explored,
            pos == previous ==> *final(map) == *old(map) && *final(self) == *old(self),
            pos != previous ==> (forall|x: int, y: int|
                #![trigger final(self).spec_visible(x, y)]
                final(self).spec_visible(x, y) == spec_sees(
                    *old(map),
                    pos.0 as int,
                    pos.1 as int,
                    radius as int,
                    x,
                    y,
                )),
            pos != previous ==> (forall|x: int, y: int|
                #![trigger final(map).spec_at(x, y)]
                old(map).spec_in_bounds(x, y) ==> final(map).spec_at(x, y).explored == (old(
                    map).spec_at(x, y).explored || spec_sees(
                    *old(map),
                    pos.0 as int,
                    pos.1 as int,
                    radius as int,
                    x,
                    y,
                ))),
    {
        if pos.0 == previous.0 && pos.1 == previous.1 {
            return;
        }
        let width: i32 = map.width();
        let height: i32 = map.height();

        let mut vis: Vec<bool> = Vec::new();
        let mut y: i32 = 0;
        while y < height
            invariant
                *map == *old(map),
                map.wf(),
                width == map.spec_width(),
                height == map.spec_height(),
                map.spec_in_bounds(pos.0 as int, pos.1 as int),
                radius >= 0,
                0 <= y <= height,
                vis@.len() == y * width,
                forall|xx: int, yy: int|
                    #![trigger vis@[grid_index(xx, yy, width as int)]]
                    0 <= xx < width && 0 <= yy < y ==> vis@[grid_index(xx, yy, width as int)]
                        == spec_sees(*map, pos.0 as int, pos.1 as int, radius as int, xx, yy),
            decreases height - y,
        {
            let mut x: i32 = 0;
            while x < width
                invariant
                    *map == *old(map),
                    map.wf(),
                    width == map.spec_width(),
                    height == map.spec_height(),
                    map.spec_in_bounds(pos.0 as int, pos.1 as int),
                    radius >= 0,
                    0 <= y < height,
                    0 <= x <= width,
                    vis@.len() == y * width + x,
                    forall|xx: int, yy: int|
                        #![trigger vis@[grid_index(xx, yy, width as int)]]
                        0 <= xx < width && (0 <= yy < y || (yy == y && 0 <= xx < x)) ==> vis@[
                            grid_index(xx, yy, width as int)] == spec_sees(
                            *map,
                            pos.0 as int,
                            pos.1 as int,
                            radius as int,
                            xx,
                            yy,
                        ),
                decreases width - x,
            {
                let v: bool = sees(map, pos.0, pos.1, radius, x, y);
                vis.push(v);
                proof {
                    lemma_grid_index_bounds(x as int, y as int, width as int, height as int);
                    assert forall|xx: int, yy: int|
                        0 <= xx < width && (0 <= yy < y || (yy == y && 0 <= xx < x + 1))
                            implies vis@[grid_index(xx, yy, width as int)] == spec_sees(
                        *map,
                        pos.0 as int,
                        pos.1 as int,
                        radius as int,
                        xx,
                        yy,
                    ) by {
                        lemma_grid_index_bounds(xx, yy, width as int, height as int);
                        if xx == x as int && yy == y as int {
                        } else {
                            crate::grid::lemma_grid_index_lt(
                                xx,
                                yy,
                                x as int,
                                y as int,
                                width as int,
                            );
                        }
                    }
                }
                x = x + 1;
            }
            proof {
                assert((y as int + 1) * (width as int) == y as int * (width as int)
                    + width as int) by (nonlinear_arith);
            }
            y = y + 1;
        }

        let mut y2: i32 = 0;
        while y2 < height
            invariant
                map.wf(),
                width == map.spec_width(),
                height == map.spec_height(),
                width == old(map).spec_width(),
                height == old(map).spec_height(),
                map.spec_in_bounds(pos.0 as int, pos.1 as int),
                radius >= 0,
                0 <= y2 <= height,
                vis@.len() == height * width,
                forall|xx: int, yy: int|
                    #![trigger vis@[grid_index(xx, yy, width as int)]]
                    0 <= xx < width && 0 <= yy < height ==> vis@[grid_index(xx, yy, width as int)]
                        == spec_sees(*old(map), pos.0 as int, pos.1 as int, radius as int, xx, yy),
                forall|xx: int, yy: int|
                    #![trigger map.spec_at(xx, yy)]
                    map.spec_at(xx, yy).blocked == old(map).spec_at(xx, yy).blocked && map.spec_at(
                        xx,
                        yy,
                    ).block_sight == old(map).spec_at(xx, yy).block_sight,
                forall|xx: int, yy: int|
                    #![trigger map.spec_at(xx, yy)]
                    old(map).spec_in_bounds(xx, yy) && yy < y2 ==> map.spec_at(xx, yy).explored == (
                    old(map).spec_at(xx, yy).explored || spec_sees(
                        *old(map),
                        pos.0 as int,
                        pos.1 as int,
                        radius as int,
                        xx,
                        yy,
                    )),
                forall|xx: int, yy: int|
                    #![trigger map.spec_at(xx, yy)]
                    !(0 <= yy < y2) ==> map.spec_at(xx, yy) == old(map).spec_at(xx, yy),
            decreases height - y2,
        {
            let mut x2: i32 = 0;
            while x2 < width
                invariant
                    map.wf(),
                    width == map.spec_width(),
                    height == map.spec_height(),
                    width == old(map).spec_width(),
                    height == old(map).spec_height(),
                    map.spec_in_bounds(pos.0 as int, pos.1 as int),
                    radius >= 0,
                    0 <= y2 < height,
                    0 <= x2 <= width,
                    vis@.len() == height * width,
                    forall|xx: int, yy: int|
                        #![trigger vis@[grid_index(xx, yy, width as int)]]
                        0 <= xx < width && 0 <= yy < height ==> vis@[grid_index(
                            xx,
                            yy,
                            width as int,
                        )] == spec_sees(
                            *old(map),
                            pos.0 as int,
                            pos.1 as int,
                            radius as int,
                            xx,
                            yy,
                        ),
                    forall|xx: int, yy: int|
                        #![trigger map.spec_at(xx, yy)]
                        map.spec_at(xx, yy).blocked == old(map).spec_at(xx, yy).blocked
                            && map.spec_at(xx, yy).block_sight == old(map).spec_at(
                            xx,
                            yy,
                        ).block_sight,
                    forall|xx: int, yy: int|
                        #![trigger map.spec_at(xx, yy)]
                        old(map).spec_in_bounds(xx, yy) && (yy < y2 || (yy == y2 && xx < x2))
                            ==> map.spec_at(xx, yy).explored == (old(map).spec_at(xx, yy).explored
                            || spec_sees(
                            *old(map),
                            pos.0 as int,
                            pos.1 as int,
                            radius as int,
                            xx,
                            yy,
                        )),
                    forall|xx: int, yy: int|
                        #![trigger map.spec_at(xx, yy)]
                        !(0 <= yy < y2 || (yy == y2 && 0 <= xx < x2)) ==> map.spec_at(xx, yy) == old(
                            map,
                        ).spec_at(xx, yy),
                decreases width - x2,
            {
                proof {
                    lemma_grid_index_bounds(x2 as int, y2 as int, width as int, height as int);
                }
                let i: usize = (y2 * width + x2) as usize;
                if vis[i] {
                    let t: Tile = *map.at(x2, y2);
                    map.set(
                        x2,
                        y2,
                        Tile { blocked: t.blocked, block_sight: t.block_sight, explored: true },
                    );
                }
                x2 = x2 + 1;
            }
            y2 = y2 + 1;
        }

        self.visible = vis;
    }
}

} // verus!
