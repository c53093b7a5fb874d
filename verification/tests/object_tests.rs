use rogue_grid::grid::Grid;
use rogue_grid::object::is_blocked;
use rogue_grid::object::move_by;
use rogue_grid::object::Object;
use rogue_grid::tile::Tile;

#[test]
fn object_new_sets_the_fields() {
    let o = Object::new(3, 4, "orc", true);
    assert_eq!(o.x, 3);
    assert_eq!(o.y, 4);
    assert_eq!(o.name, "orc");
    assert!(o.blocks);
    assert!(!o.alive);
}

#[test]
fn pos_and_set_pos_round_trip() {
    let mut o = Object::new(1, 2, "player", true);
    assert_eq!(o.pos(), (1, 2));
    o.set_pos(7, 8);
    assert_eq!(o.pos(), (7, 8));
    o.set_pos_tup((9, 10));
    assert_eq!(o.pos(), (9, 10));
}

#[test]
fn blocked_flips_with_the_tile_and_not_the_entities() {
    // An open cell with no occupying entity is not blocked; turning the
    // tile into a wall flips the answer with no entity change.
    let mut g = Grid::new(4, 4, Tile::empty());
    let objects: Vec<Object> = Vec::new();
    assert!(!is_blocked(2, 2, &g, &objects));
    g.set(2, 2, Tile::wall());
    assert!(is_blocked(2, 2, &g, &objects));
}

#[test]
fn blocking_entities_block_and_others_do_not() {
    let g = Grid::new(4, 4, Tile::empty());
    let mut objects: Vec<Object> = Vec::new();
    objects.push(Object::new(1, 1, "orc", true));
    objects.push(Object::new(2, 2, "scroll", false));
    assert!(is_blocked(1, 1, &g, &objects));
    assert!(!is_blocked(2, 2, &g, &objects));
    assert!(!is_blocked(3, 3, &g, &objects));
}

#[test]
fn out_of_bounds_counts_as_blocked() {
    let g = Grid::new(4, 4, Tile::empty());
    let objects: Vec<Object> = Vec::new();
    assert!(is_blocked(-1, 0, &g, &objects));
    assert!(is_blocked(0, 4, &g, &objects));
}

#[test]
fn object_move_by_respects_walls_and_edges() {
    let mut g = Grid::new(4, 4, Tile::empty());
    g.set(2, 1, Tile::wall());

    let mut o = Object::new(1, 1, "player", true);
    o.move_by(&g, 1, 0);
    assert_eq!(o.pos(), (1, 1), "a wall stops the step");
    o.move_by(&g, 0, 1);
    assert_eq!(o.pos(), (1, 2), "an open cell admits the step");
    o.move_by(&g, -2, 0);
    assert_eq!(o.pos(), (1, 2), "the grid edge stops the step");
}

#[test]
fn move_by_respects_blocking_entities() {
    let g = Grid::new(4, 4, Tile::empty());
    let mut objects: Vec<Object> = Vec::new();
    objects.push(Object::new(1, 1, "player", true));
    objects.push(Object::new(2, 1, "orc", true));

    move_by(0, 1, 0, &g, &mut objects);
    assert_eq!(objects[0].pos(), (1, 1), "a blocking entity stops the step");
    move_by(0, 0, 1, &g, &mut objects);
    assert_eq!(objects[0].pos(), (1, 2));
    assert_eq!(objects[1].pos(), (2, 1), "the other entity is untouched");
}
