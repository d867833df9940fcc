use dungeon_core::ai::find_astar_path;
use dungeon_core::map::{DungeonMapComponent, Tile};
use dungeon_core::util::{Bound, Point};

fn blank_map(w: i32, h: i32, tile: Tile) -> DungeonMapComponent {
    let mut grid = Vec::new();
    for _ in 0..w {
        let mut col = Vec::new();
        for _ in 0..h {
            col.push(tile);
        }
        grid.push(col);
    }
    DungeonMapComponent {
        rooms: Vec::new(),
        map: grid,
        player_start: Point { x: 0, y: 0 },
        bounds: Bound { min: Point { x: 0, y: 0 }, max: Point { x: w, y: h } },
    }
}

fn wall_in(m: &mut DungeonMapComponent, x: i32, y: i32) {
    m.map[x as usize][y as usize] = Tile::wall();
}

#[test]
fn open_five_by_five_yields_the_diagonal_path() {
    let map = blank_map(5, 5, Tile::empty());
    let path = find_astar_path(&map, Point { x: 0, y: 0 }, Point { x: 4, y: 4 })
        .expect("an open map must have a path");
    // the cheapest route is the pure diagonal: 4 steps at cost 14 (56),
    // beating the 8 orthogonal steps at cost 10 (80)
    assert_eq!(path.len(), 5);
    assert_eq!(
        path,
        vec![
            Point { x: 0, y: 0 },
            Point { x: 1, y: 1 },
            Point { x: 2, y: 2 },
            Point { x: 3, y: 3 },
            Point { x: 4, y: 4 },
        ]
    );
}

#[test]
fn sealed_wall_column_yields_no_path() {
    // enclosed map with a full wall column between start and goal
    let mut map = blank_map(7, 5, Tile::empty());
    for x in 0..7 {
        wall_in(&mut map, x, 0);
        wall_in(&mut map, x, 4);
    }
    for y in 0..5 {
        wall_in(&mut map, 0, y);
        wall_in(&mut map, 6, y);
    }
    for y in 0..5 {
        wall_in(&mut map, 3, y);
    }
    let r = find_astar_path(&map, Point { x: 1, y: 2 }, Point { x: 5, y: 2 });
    assert!(r.is_none());
}

#[test]
fn returned_paths_are_eight_adjacent_chains() {
    let mut map = blank_map(9, 9, Tile::empty());
    for x in 0..9 {
        wall_in(&mut map, x, 0);
        wall_in(&mut map, x, 8);
    }
    for y in 0..9 {
        wall_in(&mut map, 0, y);
        wall_in(&mut map, 8, y);
    }
    // an interior wall the path has to walk around
    for y in 1..7 {
        wall_in(&mut map, 4, y);
    }
    let start = Point { x: 2, y: 2 };
    let goal = Point { x: 6, y: 2 };
    let path = find_astar_path(&map, start, goal).expect("the detour exists");
    assert_eq!(path[0], start);
    assert_eq!(*path.last().unwrap(), goal);
    for pair in path.windows(2) {
        let dx = (pair[1].x - pair[0].x).abs();
        let dy = (pair[1].y - pair[0].y).abs();
        assert!(dx <= 1 && dy <= 1);
        assert!(dx + dy >= 1);
        // every step lands on an open tile
        assert!(!map.is_blocked(pair[1].x, pair[1].y));
    }
}

#[test]
fn successors_skip_blocked_and_occupied_but_not_the_goal() {
    let mut map = blank_map(5, 5, Tile::empty());
    wall_in(&mut map, 2, 1);
    map.map[1][2].occupied = true;
    map.map[3][2].occupied = true;
    let center = Point { x: 2, y: 2 };
    let goal = Point { x: 3, y: 2 };
    let succ = center.successors(&map, &goal);
    // of the 8 neighbours: (2,1) is walled, (1,2) is occupied, and the
    // occupied (3,2) stays in because it is exactly the goal
    assert_eq!(succ.len(), 6);
    for (p, cost) in &succ {
        let diagonal = p.x != center.x && p.y != center.y;
        assert_eq!(*cost, if diagonal { 14 } else { 10 });
        assert!(!(p.x == 2 && p.y == 1));
        assert!(!(p.x == 1 && p.y == 2));
    }
    assert!(succ.iter().any(|(p, c)| *p == goal && *c == 10));
}

#[test]
fn pursuit_goal_tile_is_reachable_even_when_occupied() {
    let mut map = blank_map(6, 6, Tile::empty());
    for x in 0..6 {
        wall_in(&mut map, x, 0);
        wall_in(&mut map, x, 5);
    }
    for y in 0..6 {
        wall_in(&mut map, 0, y);
        wall_in(&mut map, 5, y);
    }
    // the goal tile is occupied (by the pursuit target itself)
    map.map[3][3].occupied = true;
    let path = find_astar_path(&map, Point { x: 1, y: 1 }, Point { x: 3, y: 3 })
        .expect("the occupied goal must still be reachable");
    assert_eq!(*path.last().unwrap(), Point { x: 3, y: 3 });
}
