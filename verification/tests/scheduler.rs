use dungeon_core::level::Level;
use dungeon_core::rng::Rng;
use dungeon_core::util::{Keypress, Point};

#[test]
fn a_full_round_returns_the_cursor_to_the_player() {
    let mut rng = Rng::seed_from_u64(21);
    let mut level = Level::new(80, 50, &mut rng, None);
    assert_eq!(level.current_actor, 0);
    // the player waits; every mob then gets its turn
    level.input = Some(Keypress::Printable('.'));
    let paused = level.update(&mut rng);
    assert!(!paused);
    assert_eq!(level.current_actor, 0);
}

#[test]
fn missing_input_pauses_the_scheduler_without_advancing() {
    let mut rng = Rng::seed_from_u64(21);
    let mut level = Level::new(80, 50, &mut rng, None);
    level.input = None;
    let paused = level.update(&mut rng);
    assert!(paused);
    assert_eq!(level.current_actor, 0);
    // an unrecognized key pauses just the same
    level.input = Some(Keypress::Printable('q'));
    assert!(level.update(&mut rng));
    assert_eq!(level.current_actor, 0);
}

#[test]
fn several_rounds_keep_the_level_consistent() {
    let mut rng = Rng::seed_from_u64(77);
    let mut level = Level::new(80, 50, &mut rng, None);
    for _ in 0..10 {
        level.input = Some(Keypress::NumPad6);
        let paused = level.update(&mut rng);
        assert!(!paused);
        assert_eq!(level.current_actor, 0);
        // occupancy stays in sync with the entities after every round
        for e in &level.entities {
            assert!(level.map_component.is_occupied(e.position.x, e.position.y));
        }
    }
}

#[test]
fn player_movement_keys_move_the_player_when_free() {
    let mut rng = Rng::seed_from_u64(3);
    let mut level = Level::new(80, 50, &mut rng, None);
    let start = level.entities[0].position;
    // walk east until something is in the way; the first round either
    // moves the player one tile east or leaves it in place
    level.input = Some(Keypress::Right);
    let paused = level.update(&mut rng);
    assert!(!paused);
    let now = level.entities[0].position;
    assert!(now == Point { x: start.x + 1, y: start.y } || now == start);
}

#[test]
fn new_level_holds_player_and_mobs_in_sync() {
    let mut rng = Rng::seed_from_u64(123);
    let level = Level::new(80, 50, &mut rng, None);
    assert!(level.entities.len() >= 1 && level.entities.len() <= 4);
    let player = &level.entities[0];
    assert!(player.player);
    assert_eq!(player.display_char, '@');
    assert_eq!(player.position, level.map_component.get_player_start());
    for mob in &level.entities[1..] {
        assert_eq!(mob.display_char, 'k');
        assert!(mob.is_hostile);
    }
    // every entity stands on its own occupied tile
    for e in &level.entities {
        assert!(level.map_component.is_occupied(e.position.x, e.position.y));
        assert!(!level.map_component.is_blocked(e.position.x, e.position.y));
    }
}

#[test]
fn same_seed_builds_identical_level_maps() {
    let mut r1 = Rng::seed_from_u64(555);
    let mut r2 = Rng::seed_from_u64(555);
    let a = Level::new(80, 50, &mut r1, None);
    let b = Level::new(80, 50, &mut r2, None);
    assert_eq!(a.map_component.get_rooms(), b.map_component.get_rooms());
    assert_eq!(a.map_component.get_player_start(), b.map_component.get_player_start());
    for x in 0..80 {
        for y in 0..50 {
            assert_eq!(
                a.map_component.is_blocked(x, y),
                b.map_component.is_blocked(x, y)
            );
        }
    }
    // the whole roster is reproduced as well
    assert_eq!(a.entities.len(), b.entities.len());
    for (ea, eb) in a.entities.iter().zip(b.entities.iter()) {
        assert_eq!(ea.position, eb.position);
    }
    // and so is the starter item
    let ia = a.items.values();
    let ib = b.items.values();
    assert_eq!(ia.len(), 1);
    assert_eq!(ib.len(), 1);
    assert_eq!(ia[0].position, ib[0].position);
    assert_eq!(ia[0].name, ib[0].name);
}

#[test]
fn new_level_places_the_sword_in_the_first_room() {
    let mut rng = Rng::seed_from_u64(31);
    let level = Level::new(80, 50, &mut rng, None);
    let all = level.items.values();
    assert_eq!(all.len(), 1);
    assert_eq!(all[0].name, "Sword");
    let room = level.map_component.get_rooms()[0];
    assert!(room.x1 < all[0].position.x && all[0].position.x < room.x2);
    assert!(room.y1 < all[0].position.y && all[0].position.y < room.y2);
}

#[test]
fn new_level_spawns_kobolds_inside_rooms() {
    let mut rng = Rng::seed_from_u64(64);
    let level = Level::new(80, 50, &mut rng, None);
    for mob in &level.entities[1..] {
        let inside = level.map_component.get_rooms().iter().any(|room| {
            room.x1 < mob.position.x && mob.position.x < room.x2 && room.y1 < mob.position.y
                && mob.position.y < room.y2
        });
        assert!(inside);
    }
}

#[test]
fn a_passed_player_is_reseated_at_the_spawn_point() {
    let mut r1 = Rng::seed_from_u64(9);
    let veteran = dungeon_core::actor::Entity::player(Point { x: 70, y: 40 });
    let mut veteran = veteran;
    veteran.health = 3;
    let level = Level::new(80, 50, &mut r1, Some(veteran));
    assert_eq!(level.entities[0].position, level.map_component.get_player_start());
    assert_eq!(level.entities[0].health, 3);
    assert!(level.entities[0].player);
}
