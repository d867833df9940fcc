use dungeon_core::map::{DungeonMapComponent, Rect, MAX_ROOMS, ROOM_MAX_SIZE, ROOM_MIN_SIZE};
use dungeon_core::rng::Rng;
use dungeon_core::util::Point;

fn grids_equal(a: &DungeonMapComponent, b: &DungeonMapComponent) -> bool {
    let (wa, ha) = (a.get_bounds().max.x, a.get_bounds().max.y);
    let (wb, hb) = (b.get_bounds().max.x, b.get_bounds().max.y);
    if wa != wb || ha != hb {
        return false;
    }
    for x in 0..wa {
        for y in 0..ha {
            let ta = a.get_tile(x, y);
            let tb = b.get_tile(x, y);
            if ta.blocked != tb.blocked || ta.block_sight != tb.block_sight
                || ta.explored != tb.explored || ta.occupied != tb.occupied {
                return false;
            }
        }
    }
    true
}

#[test]
fn same_seed_generates_identical_maps() {
    for seed in [0u64, 1, 42, 0xdead_beef] {
        let mut r1 = Rng::seed_from_u64(seed);
        let mut r2 = Rng::seed_from_u64(seed);
        let a = DungeonMapComponent::new(80, 50, &mut r1);
        let b = DungeonMapComponent::new(80, 50, &mut r2);
        assert_eq!(a.get_rooms(), b.get_rooms());
        assert_eq!(a.get_player_start(), b.get_player_start());
        assert!(grids_equal(&a, &b));
    }
}

#[test]
fn generated_rooms_do_not_overlap_and_fit_in_bounds() {
    let mut rng = Rng::seed_from_u64(7);
    let m = DungeonMapComponent::new(80, 50, &mut rng);
    let rooms: &Vec<Rect> = m.get_rooms();
    assert!(rooms.len() >= 1);
    assert!(rooms.len() <= MAX_ROOMS as usize);
    for (i, a) in rooms.iter().enumerate() {
        // strictly inside the map, one tile of wall spare on each side
        assert!(a.x1 >= 0 && a.y1 >= 0);
        assert!(a.x2 <= 80 - 2 && a.y2 <= 50 - 2);
        assert!(a.x2 - a.x1 >= ROOM_MIN_SIZE && a.x2 - a.x1 <= ROOM_MAX_SIZE);
        assert!(a.y2 - a.y1 >= ROOM_MIN_SIZE && a.y2 - a.y1 <= ROOM_MAX_SIZE);
        for (j, b) in rooms.iter().enumerate() {
            if i != j {
                assert!(!a.intersects_with(b));
            }
        }
    }
}

#[test]
fn generated_map_border_is_walled_and_rooms_are_carved() {
    let mut rng = Rng::seed_from_u64(99);
    let m = DungeonMapComponent::new(80, 50, &mut rng);
    for x in 0..80 {
        assert!(m.is_blocked(x, 0));
        assert!(m.is_blocked(x, 49));
    }
    for y in 0..50 {
        assert!(m.is_blocked(0, y));
        assert!(m.is_blocked(79, y));
    }
    // the interior of every accepted room is open floor
    for room in m.get_rooms() {
        for x in (room.x1 + 1)..room.x2 {
            for y in (room.y1 + 1)..room.y2 {
                assert!(!m.is_blocked(x, y));
            }
        }
    }
}

#[test]
fn player_start_is_center_of_first_room() {
    let mut rng = Rng::seed_from_u64(1234);
    let m = DungeonMapComponent::new(80, 50, &mut rng);
    let first = m.get_rooms()[0];
    let (cx, cy) = first.center();
    assert_eq!(m.get_player_start(), Point { x: cx, y: cy });
    assert!(m.contains(cx, cy));
    assert!(!m.is_blocked(cx, cy));
}

#[test]
fn rng_streams_are_reproducible() {
    let mut a = Rng::seed_from_u64(5);
    let mut b = Rng::seed_from_u64(5);
    for _ in 0..32 {
        let va = a.gen_range_i32(-50, 150);
        let vb = b.gen_range_i32(-50, 150);
        assert_eq!(va, vb);
        assert!((-50..150).contains(&va));
        assert_eq!(a.gen_coin(), b.gen_coin());
        let ua = a.gen_range_usize(3, 11);
        let ub = b.gen_range_usize(3, 11);
        assert_eq!(ua, ub);
        assert!((3..11).contains(&ua));
    }
}

#[test]
fn rng_streams_differ_across_seeds() {
    let mut a = Rng::seed_from_u64(1);
    let mut b = Rng::seed_from_u64(2);
    let mut differs = false;
    for _ in 0..64 {
        if a.gen_range_i32(0, 1000000) != b.gen_range_i32(0, 1000000) {
            differs = true;
        }
    }
    assert!(differs);
}

#[test]
fn rand_point_lies_strictly_inside_the_rect() {
    let room = Rect::new(10, 20, 8, 6);
    let mut rng = Rng::seed_from_u64(3);
    for _ in 0..64 {
        let p = room.rand_point(&mut rng);
        assert!(room.x1 < p.x && p.x < room.x2);
        assert!(room.y1 < p.y && p.y < room.y2);
    }
}
