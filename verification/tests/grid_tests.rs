use rogue_grid::grid::Grid;
use rogue_grid::tile::Tile;

#[test]
fn new_fills_every_cell_with_the_fill_tile() {
    let g = Grid::new(3, 4, Tile::empty());
    assert_eq!(g.width(), 3);
    assert_eq!(g.height(), 4);
    for x in 0..3 {
        for y in 0..4 {
            assert_eq!(*g.at(x, y), Tile::empty());
        }
    }
    let w = Grid::new(2, 2, Tile::wall());
    for x in 0..2 {
        for y in 0..2 {
            assert_eq!(*w.at(x, y), Tile::wall());
        }
    }
}

#[test]
fn out_of_bounds_reads_are_wall_regardless_of_fill() {
    let g = Grid::new(3, 3, Tile::empty());
    for (x, y) in [(-1, 0), (0, -1), (3, 0), (0, 3), (100, 100), (-5, -5)] {
        let t = *g.at(x, y);
        assert!(t.blocked);
        assert!(t.block_sight);
    }
}

#[test]
fn in_bounds_matches_the_grid_box() {
    let g = Grid::new(5, 2, Tile::empty());
    assert!(g.in_bounds(0, 0));
    assert!(g.in_bounds(4, 1));
    assert!(!g.in_bounds(5, 0));
    assert!(!g.in_bounds(0, 2));
    assert!(!g.in_bounds(-1, 0));
    assert!(!g.in_bounds(0, -1));
}

#[test]
fn set_updates_exactly_one_cell() {
    let mut g = Grid::new(4, 4, Tile::empty());
    g.set(2, 1, Tile::wall());
    for x in 0..4 {
        for y in 0..4 {
            if (x, y) == (2, 1) {
                assert_eq!(*g.at(x, y), Tile::wall());
            } else {
                assert_eq!(*g.at(x, y), Tile::empty());
            }
        }
    }
}

#[test]
fn at_mut_writes_through() {
    let mut g = Grid::new(4, 4, Tile::empty());
    at_mut_helper(&mut g);
    assert!(g.at(1, 3).explored);
    assert!(!g.at(1, 2).explored);
}

fn at_mut_helper(g: &mut Grid) {
    let t = g.at_mut(1, 3);
    t.explored = true;
}

#[test]
fn tile_constructors_and_is_wall() {
    let e = Tile::empty();
    assert!(!e.blocked);
    assert!(!e.block_sight);
    assert!(!e.explored);
    assert!(!e.is_wall());

    let w = Tile::wall();
    assert!(w.blocked);
    assert!(w.block_sight);
    assert!(!w.explored);
    assert!(w.is_wall());
}
