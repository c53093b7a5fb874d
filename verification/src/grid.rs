use vstd::prelude::*;

verus! {

use crate::tile::Tile;

/// A flat, bounds-checked 2D array of tiles. Coordinates are `i32`; reading
/// outside `[0, width) x [0, height)` is not an error and yields a shared
/// out-of-bounds wall sentinel, while writes must stay in bounds.
pub struct Grid {
    tiles: Vec<Tile>,
    width: i32,
    height: i32,
    out_of_bounds_tile: Tile,
}

/// Row-major position of `(x, y)` in the flat tile array.
pub open spec fn grid_index(x: int, y: int, width: int) -> int {
    y * width + x
}

pub proof fn lemma_grid_index_bounds(x: int, y: int, w: int, h: int)
    by (nonlinear_arith)
    requires
        0 <= x < w,
        0 <= y < h,
    ensures
        0 <= y * w,
        y * w <= y * w + x < w * h,
{
}

pub proof fn lemma_grid_index_lt(x1: int, y1: int, x2: int, y2: int, w: int)
    by (nonlinear_arith)
    requires
        0 <= x1 < w,
        0 <= x2 < w,
        y1 < y2 || (y1 == y2 && x1 < x2),
    ensures
        y1 * w + x1 < y2 * w + x2,
{
}

pub proof fn lemma_grid_index_injective(x1: int, y1: int, x2: int, y2: int, w: int)
    by (nonlinear_arith)
    requires
        0 <= x1 < w,
        0 <= x2 < w,
        y1 * w + x1 == y2 * w + x2,
    ensures
        x1 == x2 && y1 == y2,
{
}

impl Grid {
    pub closed spec fn tiles_seq(&self) -> Seq<Tile> {
        self.tiles@
    }

    pub closed spec fn spec_width(&self) -> int {
        self.width as int
    }

    pub closed spec fn spec_height(&self) -> int {
        self.height as int
    }

    pub closed spec fn oob_tile(&self) -> Tile {
        self.out_of_bounds_tile
    }

    pub open spec fn spec_in_bounds(&self, x: int, y: int) -> bool {
        0 <= x < self.spec_width() && 0 <= y < self.spec_height()
    }

    pub open spec fn wf(&self) -> bool {
        &&& 1 <= self.spec_width() <= i32::MAX
        &&& 1 <= self.spec_height() <= i32::MAX
        &&& self.spec_width() * self.spec_height() <= i32::MAX
        &&& self.tiles_seq().len() == self.spec_width() * self.spec_height()
        &&& self.oob_tile() == Tile::wall_spec()
    }

    /// The tile at `(x, y)`, with the wall sentinel standing in for every
    /// out-of-bounds coordinate.
    pub open spec fn spec_at(&self, x: int, y: int) -> Tile {
        if self.spec_in_bounds(x, y) {
            self.tiles_seq()[grid_index(x, y, self.spec_width())]
        } else {
            Tile::wall_spec()
        }
    }

    pub fn new(width: i32, height: i32, default_tile: Tile) -> (g: Grid)
        requires
            1 <= width,
            1 <= height,
            width * height <= i32::MAX,
        ensures
            g.wf(),
            g.spec_width() == width,
            g.spec_height() == height,
            forall|x: int, y: int| g.spec_in_bounds(x, y) ==> g.spec_at(x, y) == default_tile,
    {
        assert(0 <= width * height) by (nonlinear_arith)
            requires
                1 <= width,
                1 <= height,
        ;
        let count: usize = (width * height) as usize;
        let mut tiles: Vec<Tile> = Vec::new();
        let mut i: usize = 0;
        while i < count
            invariant
                i <= count,
                tiles@.len() == i,
                forall|k: int| 0 <= k < i ==> tiles@[k] == default_tile,
            decreases count - i,
        {
            tiles.push(default_tile);
            i = i + 1;
        }
        let g = Grid { tiles, width, height, out_of_bounds_tile: Tile::wall() };
        proof {
            assert forall|x: int, y: int| g.spec_in_bounds(x, y) implies g.spec_at(x, y)
                == default_tile by {
                lemma_grid_index_bounds(x, y, width as int, height as int);
            }
        }
        g
    }

    pub fn in_bounds(&self, x: i32, y: i32) -> (r: bool)
        ensures
            r == self.spec_in_bounds(x as int, y as int),
    {
        x >= 0 && y >= 0 && x < self.width && y < self.height
    }

    fn index_at(&self, x: i32, y: i32) -> (i: usize)
        requires
            self.wf(),
            self.spec_in_bounds(x as int, y as int),
        ensures
            i == grid_index(x as int, y as int, self.spec_width()),
            i < self.tiles_seq().len(),
    {
        proof {
            lemma_grid_index_bounds(x as int, y as int, self.spec_width(), self.spec_height());
        }
        (y * self.width + x) as usize
    }

    pub fn at(&self, x: i32, y: i32) -> (t: &Tile)
        requires
            self.wf(),
        ensures
            *t == self.spec_at(x as int, y as int),
    {
        if !self.in_bounds(x, y) {
            return &self.out_of_bounds_tile;
        }
        let i: usize = self.index_at(x, y);
        &self.tiles[i]
    }

    /// Mutable access to an in-bounds tile. Unlike `at`, there is no
    /// out-of-bounds fallback here: writes must never target the sentinel,
    /// so the caller has to bounds-check first.
    pub fn at_mut(&mut self, x: i32, y: i32) -> (t: &mut Tile)
        requires
            old(self).wf(),
            old(self).spec_in_bounds(x as int, y as int),
        ensures
            *t == old(self).spec_at(x as int, y as int),
            final(self).wf(),
            final(self).spec_width() == old(self).spec_width(),
            final(self).spec_height() == old(self).spec_height(),
            forall|xx: int, yy: int|
                final(self).spec_at(xx, yy) == (if xx == x as int && yy == y as int {
                    *final(t)
                } else {
                    old(self).spec_at(xx, yy)
                }),
    {
        let index: usize = self.index_at(x, y);
        proof {
            let w = old(self).spec_width();
            let h = old(self).spec_height();
            assert forall|xx: int, yy: int|
                #![trigger grid_index(xx, yy, w)]
                0 <= xx < w && 0 <= yy < h implies 0 <= grid_index(xx, yy, w) < w * h && (
            grid_index(xx, yy, w) == grid_index(x as int, y as int, w) ==> (xx == x as int && yy
                == y as int)) by {
                lemma_grid_index_bounds(xx, yy, w, h);
                if grid_index(xx, yy, w) == grid_index(x as int, y as int, w) {
                    lemma_grid_index_injective(xx, yy, x as int, y as int, w);
                }
            }
        }
        &mut self.tiles[index]
    }

    pub fn set(&mut self, x: i32, y: i32, tile: Tile)
        requires
            old(self).wf(),
            old(self).spec_in_bounds(x as int, y as int),
        ensures
            final(self).wf(),
            final(self).spec_width() == old(self).spec_width(),
            final(self).spec_height() == old(self).spec_height(),
            forall|xx: int, yy: int|
                final(self).spec_at(xx, yy) == (if xx == x as int && yy == y as int {
                    tile
                } else {
                    old(self).spec_at(xx, yy)
                }),
    {
        let i: usize = self.index_at(x, y);
        self.tiles[i] = tile;
        proof {
            let w = self.spec_width();
            let h = self.spec_height();
            assert forall|xx: int, yy: int|
                self.spec_at(xx, yy) == (if xx == x as int && yy == y as int {
                    tile
                } else {
                    old(self).spec_at(xx, yy)
                }) by {
                if self.spec_in_bounds(xx, yy) {
                    lemma_grid_index_bounds(xx, yy, w, h);
                    if grid_index(xx, yy, w) == grid_index(x as int, y as int, w) {
                        lemma_grid_index_injective(xx, yy, x as int, y as int, w);
                    }
                }
            }
        }
    }

    /// Reading any out-of-bounds coordinate yields the wall sentinel,
    /// whatever the grid was filled with.
    pub proof fn lemma_out_of_bounds_reads_wall(&self, x: int, y: int)
        requires
            !self.spec_in_bounds(x, y),
        ensures
            self.spec_at(x, y) == Tile::wall_spec(),
    {
    }

    pub fn width(&self) -> (w: i32)
        ensures
            w == self.spec_width(),
    {
        self.width
    }

    pub fn height(&self) -> (h: i32)
        ensures
            h == self.spec_height(),
    {
        self.height
    }
}

} // verus!
