use rand::rngs::StdRng;
use rand::SeedableRng;

use rogue_grid::grid::Grid;
use rogue_grid::object::Object;
use rogue_grid::rect::Rect;
use rogue_grid::rooms::plan_rooms;
use rogue_grid::rooms::MAX_ROOMS;
use rogue_grid::rooms::MAX_ROOM_MONSTERS;
use rogue_grid::rooms::ROOM_MAX_SIZE;
use rogue_grid::rooms::ROOM_MIN_SIZE;
use rogue_grid::tile::Tile;

#[test]
fn rect_new_builds_the_corners() {
    let r = Rect::new(2, 3, 4, 5);
    assert_eq!(r.x1, 2);
    assert_eq!(r.y1, 3);
    assert_eq!(r.x2, 6);
    assert_eq!(r.y2, 8);
}

#[test]
fn rect_center_is_the_midpoint() {
    let r = Rect::new(2, 2, 4, 4);
    assert_eq!(r.center(), (4, 4));
    let r2 = Rect::new(0, 0, 7, 9);
    assert_eq!(r2.center(), (3, 4));
}

#[test]
fn rect_intersection_is_edge_inclusive() {
    let a = Rect::new(0, 0, 4, 4);
    let touching = Rect::new(4, 0, 4, 4);
    assert!(a.intersects_with(&touching));
    assert!(touching.intersects_with(&a));

    let overlapping = Rect::new(2, 2, 4, 4);
    assert!(a.intersects_with(&overlapping));

    let apart = Rect::new(5, 0, 4, 4);
    assert!(!a.intersects_with(&apart));
    assert!(!apart.intersects_with(&a));
}

#[test]
fn single_room_carve_scenario() {
    // A 10x10 all-wall grid with one room whose corners are (2,2)-(6,6):
    // the interior (3,3)-(5,5) opens up and the perimeter stays wall.
    let mut g = Grid::new(10, 10, Tile::wall());
    let room = Rect::new(2, 2, 4, 4);
    assert_eq!((room.x1, room.y1, room.x2, room.y2), (2, 2, 6, 6));
    g.create_room(room);

    for x in 0..10 {
        for y in 0..10 {
            let inside = x > 2 && x < 6 && y > 2 && y < 6;
            if inside {
                assert_eq!(*g.at(x, y), Tile::empty());
            } else {
                assert_eq!(*g.at(x, y), Tile::wall());
            }
        }
    }
}

#[test]
fn h_tunnel_carves_exactly_the_segment() {
    let mut g = Grid::new(10, 10, Tile::wall());
    // arguments reversed on purpose: the carve covers min..=max either way
    g.create_h_tunnel(7, 2, 4);
    for x in 0..10 {
        for y in 0..10 {
            if y == 4 && (2..=7).contains(&x) {
                assert_eq!(*g.at(x, y), Tile::empty());
            } else {
                assert_eq!(*g.at(x, y), Tile::wall());
            }
        }
    }
}

#[test]
fn v_tunnel_carves_exactly_the_segment() {
    let mut g = Grid::new(10, 10, Tile::wall());
    g.create_v_tunnel(1, 8, 3);
    for x in 0..10 {
        for y in 0..10 {
            if x == 3 && (1..=8).contains(&y) {
                assert_eq!(*g.at(x, y), Tile::empty());
            } else {
                assert_eq!(*g.at(x, y), Tile::wall());
            }
        }
    }
}

#[test]
fn planned_rooms_never_intersect() {
    for seed in 0..5u64 {
        let mut rng = StdRng::seed_from_u64(seed);
        let rooms = plan_rooms(80, 45, &mut rng);
        assert!(!rooms.is_empty(), "the first candidate can never be rejected");
        assert!(rooms.len() <= MAX_ROOMS as usize);
        for r in &rooms {
            assert!(0 <= r.x1 && r.x1 < r.x2 && r.x2 < 80);
            assert!(0 <= r.y1 && r.y1 < r.y2 && r.y2 < 45);
            assert!((ROOM_MIN_SIZE..=ROOM_MAX_SIZE).contains(&(r.x2 - r.x1)));
            assert!((ROOM_MIN_SIZE..=ROOM_MAX_SIZE).contains(&(r.y2 - r.y1)));
        }
        for i in 0..rooms.len() {
            for j in 0..rooms.len() {
                if i != j {
                    assert!(!rooms[i].intersects_with(&rooms[j]));
                }
            }
        }
    }
}

#[test]
fn place_objects_spawns_inside_the_interior() {
    let room = Rect::new(10, 10, 8, 8);
    for seed in 0..10u64 {
        let mut rng = StdRng::seed_from_u64(seed);
        let mut objects: Vec<Object> = Vec::new();
        Grid::place_objects(room, &mut rng, &mut objects);
        assert!(objects.len() <= MAX_ROOM_MONSTERS as usize);
        for o in &objects {
            assert!(o.x > room.x1 && o.x < room.x2);
            assert!(o.y > room.y1 && o.y < room.y2);
            assert!(o.blocks);
            assert!(o.alive);
            assert!(o.name == "orc" || o.name == "troll");
        }
    }
}

#[test]
fn random_rooms_give_a_walkable_start_and_floor_monsters() {
    for seed in [1u64, 42, 1000] {
        let mut rng = StdRng::seed_from_u64(seed);
        let mut objects: Vec<Object> = Vec::new();
        let (map, (sx, sy)) = Grid::create_random_rooms(80, 45, &mut rng, &mut objects);
        assert_eq!(map.width(), 80);
        assert_eq!(map.height(), 45);
        assert!(map.in_bounds(sx, sy));
        assert!(!map.at(sx, sy).blocked, "the start is always on floor");
        for o in &objects {
            assert!(map.in_bounds(o.x, o.y));
            assert!(!map.at(o.x, o.y).blocked);
            assert!(o.blocks && o.alive);
            assert!(o.name == "orc" || o.name == "troll");
        }
        for x in 0..80 {
            for y in 0..45 {
                let t = *map.at(x, y);
                assert!(t == Tile::wall() || t == Tile::empty());
            }
        }
    }
}

#[test]
fn carving_two_rooms_gives_exactly_interiors_and_corridor() {
    // Two rooms whose centers share a row: both leg orders of the L-shaped
    // corridor collapse to the same straight run, so the full layout is
    // known in advance whatever the coin said.
    let rooms = vec![Rect::new(2, 2, 6, 6), Rect::new(12, 2, 6, 6)];
    let mut rng = StdRng::seed_from_u64(0);
    let mut objects: Vec<Object> = Vec::new();
    let (map, start) = Grid::carve_rooms(20, 12, &rooms, &mut rng, &mut objects);

    assert_eq!(start, (5, 5), "the start is the first room's center");
    for x in 0..20 {
        for y in 0..12 {
            let in_first = x > 2 && x < 8 && y > 2 && y < 8;
            let in_second = x > 12 && x < 18 && y > 2 && y < 8;
            let on_corridor = y == 5 && (5..=15).contains(&x);
            let floor = in_first || in_second || on_corridor;
            assert_eq!(!map.at(x, y).blocked, floor, "cell ({x}, {y})");
        }
    }
    for o in &objects {
        let in_first = o.x > 2 && o.x < 8 && o.y > 2 && o.y < 8;
        let in_second = o.x > 12 && o.x < 18 && o.y > 2 && o.y < 8;
        assert!(in_first || in_second, "monsters stand strictly inside a room");
    }
}
