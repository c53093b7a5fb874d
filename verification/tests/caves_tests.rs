use rand::rngs::StdRng;
use rand::SeedableRng;

use rogue_grid::grid::Grid;
use rogue_grid::object::Object;
use rogue_grid::tile::Tile;

#[test]
fn count_with_all_neighbours_off_grid_is_zero() {
    // On a 1x1 grid every one of the eight neighbours is off-grid, and
    // out-of-bounds counts as non-empty, so the count is zero even though
    // the out-of-bounds read sentinel is never consulted as "empty".
    let g = Grid::new(1, 1, Tile::empty());
    assert_eq!(g.count_empty_neighbours(0, 0), 0);
    let w = Grid::new(1, 1, Tile::wall());
    assert_eq!(w.count_empty_neighbours(0, 0), 0);
}

#[test]
fn count_empty_neighbours_exact_values() {
    let g = Grid::new(3, 3, Tile::empty());
    assert_eq!(g.count_empty_neighbours(1, 1), 8);
    assert_eq!(g.count_empty_neighbours(0, 0), 3);
    assert_eq!(g.count_empty_neighbours(1, 0), 5);

    let mut h = Grid::new(3, 3, Tile::empty());
    h.set(0, 0, Tile::wall());
    h.set(2, 2, Tile::wall());
    assert_eq!(h.count_empty_neighbours(1, 1), 6);
}

#[test]
fn sim_step_applies_the_rule() {
    // A lone empty cell in a wall field has zero empty neighbours, which
    // is below the death limit, so it fills in.
    let mut g = Grid::new(3, 3, Tile::wall());
    g.set(1, 1, Tile::empty());
    g.caves_sim_step();
    for x in 0..3 {
        for y in 0..3 {
            assert_eq!(*g.at(x, y), Tile::wall());
        }
    }

    // An all-empty patch keeps its middle open: the center has eight empty
    // neighbours, far above the death limit.
    let mut open = Grid::new(5, 5, Tile::empty());
    open.caves_sim_step();
    assert_eq!(*open.at(2, 2), Tile::empty());

    // A wall cell surrounded by more than the birth limit of empty cells
    // opens up.
    let mut b = Grid::new(3, 3, Tile::empty());
    b.set(1, 1, Tile::wall());
    b.caves_sim_step();
    assert_eq!(*b.at(1, 1), Tile::empty());
}

#[test]
fn sim_step_reads_the_previous_generation_only() {
    // Two separated empty cells must both fill in; an in-place scan that
    // filled the first before counting the second's neighbours would agree
    // here, so also check a case where in-place updating would diverge:
    // a full empty row on a 3-wide grid.
    let mut g = Grid::new(5, 5, Tile::wall());
    g.set(1, 1, Tile::empty());
    g.set(3, 3, Tile::empty());
    g.caves_sim_step();
    assert_eq!(*g.at(1, 1), Tile::wall());
    assert_eq!(*g.at(3, 3), Tile::wall());
}

#[test]
fn caves_are_deterministic_for_a_fixed_seed() {
    let mut rng1 = StdRng::seed_from_u64(7);
    let mut objects1: Vec<Object> = Vec::new();
    let a = Grid::create_caves(40, 30, &mut rng1, &mut objects1);

    let mut rng2 = StdRng::seed_from_u64(7);
    let mut objects2: Vec<Object> = Vec::new();
    let b = Grid::create_caves(40, 30, &mut rng2, &mut objects2);

    assert_eq!(a.width(), b.width());
    assert_eq!(a.height(), b.height());
    for x in 0..40 {
        for y in 0..30 {
            assert_eq!(*a.at(x, y), *b.at(x, y));
        }
    }
    assert_eq!(objects1.len(), objects2.len());
    for (o1, o2) in objects1.iter().zip(objects2.iter()) {
        assert_eq!((o1.x, o1.y), (o2.x, o2.y));
        assert_eq!(o1.name, o2.name);
    }

    let mut rng3 = StdRng::seed_from_u64(8);
    let mut objects3: Vec<Object> = Vec::new();
    let c = Grid::create_caves(40, 30, &mut rng3, &mut objects3);
    let mut all_equal = true;
    for x in 0..40 {
        for y in 0..30 {
            if *a.at(x, y) != *c.at(x, y) {
                all_equal = false;
            }
        }
    }
    assert!(!all_equal, "a different seed should give a different cave");
}

#[test]
fn cave_spawns_are_capped_and_on_distinct_cells() {
    for seed in 0..5u64 {
        let mut rng = StdRng::seed_from_u64(seed);
        let mut objects: Vec<Object> = Vec::new();
        let _map = Grid::create_caves(60, 40, &mut rng, &mut objects);
        assert!(objects.len() <= rogue_grid::caves::CAVE_DESIRED_MONSTERS as usize);
        for i in 0..objects.len() {
            for j in (i + 1)..objects.len() {
                assert!(
                    (objects[i].x, objects[i].y) != (objects[j].x, objects[j].y),
                    "no two cave spawns share a cell"
                );
            }
        }
    }
}

#[test]
fn cave_monsters_stand_on_open_floor() {
    let mut rng = StdRng::seed_from_u64(3);
    let mut objects: Vec<Object> = Vec::new();
    let map = Grid::create_caves(60, 40, &mut rng, &mut objects);
    for o in &objects {
        assert!(map.in_bounds(o.x, o.y));
        assert!(!map.at(o.x, o.y).blocked);
        assert!(o.blocks && o.alive);
        assert!(o.name == "orc" || o.name == "troll");
    }
    for x in 0..60 {
        for y in 0..40 {
            let t = *map.at(x, y);
            assert!(t == Tile::wall() || t == Tile::empty());
        }
    }
}
