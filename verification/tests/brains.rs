use dungeon_core::action::{Action, Direction, WaitAction, WalkAction};
use dungeon_core::actor::{Actor, Entity};
use dungeon_core::brain::{
    AggroBrainComponent, Brain, NoBrainComponent, PlayerBrainComponent, RandomBrainComponent,
};
use dungeon_core::item::ItemsMap;
use dungeon_core::level::Level;
use dungeon_core::map::{DungeonMapComponent, Tile};
use dungeon_core::rng::Rng;
use dungeon_core::util::{Bound, Keypress, Point};

fn walled_room_map(w: i32, h: i32) -> DungeonMapComponent {
    let mut grid = Vec::new();
    for x in 0..w {
        let mut col = Vec::new();
        for y in 0..h {
            if x == 0 || y == 0 || x == w - 1 || y == h - 1 {
                col.push(Tile::wall());
            } else {
                col.push(Tile::empty());
            }
        }
        grid.push(col);
    }
    DungeonMapComponent {
        rooms: Vec::new(),
        map: grid,
        player_start: Point { x: 1, y: 1 },
        bounds: Bound { min: Point { x: 0, y: 0 }, max: Point { x: w, y: h } },
    }
}

fn player_at(x: i32, y: i32) -> Entity {
    let mut e = Entity::new(x, y, 15, '@', Brain::Player(PlayerBrainComponent::new()), false);
    e.player = true;
    e
}

fn level_with(entities: Vec<Entity>, map: DungeonMapComponent) -> Level {
    let mut map = map;
    for e in &entities {
        map.set_occupied(e.position.x, e.position.y, true);
    }
    Level { entities, items: ItemsMap::new(), map_component: map, input: None, current_actor: 0 }
}

#[test]
fn pursuit_with_no_route_falls_back_to_wait() {
    // two chambers sealed off from each other by a full wall column
    let mut map = walled_room_map(9, 6);
    for y in 0..6 {
        map.map[4][y] = Tile::wall();
    }
    let kobold = Entity::kobold(6, 2);
    let mut level = level_with(vec![player_at(2, 2), kobold], map);
    level.current_actor = 1;

    let chaser = Entity::kobold(6, 2);
    let mut brain = AggroBrainComponent::new();
    let action = brain.get_action(&chaser, &mut level);
    match action {
        Some(Action::Wait(WaitAction { target })) => assert_eq!(target, 1),
        _ => panic!("an unreachable player must produce a wait"),
    }
    assert!(brain.path.is_empty());
}

#[test]
fn pursuit_walks_towards_a_reachable_player() {
    let map = walled_room_map(9, 6);
    let kobold = Entity::kobold(6, 2);
    let mut level = level_with(vec![player_at(2, 2), kobold], map);
    level.current_actor = 1;

    let chaser = Entity::kobold(6, 2);
    let mut brain = AggroBrainComponent::new();
    let action = brain.get_action(&chaser, &mut level);
    match action {
        Some(Action::Walk(w)) => {
            assert_eq!(w.target, 1);
            let p = w.point.expect("pursuit walks by absolute point");
            // the first step is adjacent to the chaser
            assert!((p.x - 6).abs() <= 1 && (p.y - 2).abs() <= 1);
            assert!(!(p.x == 6 && p.y == 2));
        }
        _ => panic!("a reachable player must produce a walk"),
    }
}

#[test]
fn pursuit_pops_the_cached_path_while_the_player_stands_still() {
    let map = walled_room_map(9, 6);
    let mut still_player = player_at(2, 2);
    still_player.last_position = Point { x: 2, y: 2 };
    let kobold = Entity::kobold(6, 2);
    let mut level = level_with(vec![still_player, kobold], map);
    level.current_actor = 1;

    let chaser = Entity::kobold(6, 2);
    let mut brain = AggroBrainComponent::new();
    brain.path = vec![Point { x: 5, y: 2 }, Point { x: 4, y: 2 }, Point { x: 3, y: 2 }];
    let action = brain.get_action(&chaser, &mut level);
    match action {
        Some(Action::Walk(w)) => {
            assert_eq!(w.point, Some(Point { x: 5, y: 2 }));
            assert_eq!(w.target, 1);
        }
        _ => panic!("a cached path must be consumed step by step"),
    }
    // one step was popped, nothing was recomputed
    assert_eq!(brain.path, vec![Point { x: 4, y: 2 }, Point { x: 3, y: 2 }]);
}

#[test]
fn player_brain_maps_keys_to_directions() {
    let map = walled_room_map(8, 8);
    let mut level = level_with(vec![player_at(3, 3)], map);
    let mut brain = PlayerBrainComponent::new();
    let probe = player_at(3, 3);

    let cases: Vec<(Keypress, Direction)> = vec![
        (Keypress::Up, Direction::N),
        (Keypress::NumPad8, Direction::N),
        (Keypress::Down, Direction::S),
        (Keypress::NumPad2, Direction::S),
        (Keypress::Left, Direction::W),
        (Keypress::NumPad4, Direction::W),
        (Keypress::Right, Direction::E),
        (Keypress::NumPad6, Direction::E),
        (Keypress::NumPad7, Direction::NW),
        (Keypress::NumPad9, Direction::NE),
        (Keypress::NumPad1, Direction::SW),
        (Keypress::NumPad3, Direction::SE),
    ];
    for (key, dir) in cases {
        level.input = Some(key);
        match brain.get_action(&probe, &mut level) {
            Some(Action::Walk(WalkAction { direction, target, offset, point })) => {
                assert_eq!(
                    std::mem::discriminant(&direction),
                    std::mem::discriminant(&dir)
                );
                assert_eq!(target, 0);
                assert_eq!(offset, None);
                assert_eq!(point, None);
            }
            _ => panic!("a movement key must produce a walk"),
        }
    }

    level.input = Some(Keypress::Printable('.'));
    assert!(matches!(brain.get_action(&probe, &mut level), Some(Action::Wait(_))));

    // no key and unrecognized keys both yield no decision: the pause
    level.input = None;
    assert!(brain.get_action(&probe, &mut level).is_none());
    level.input = Some(Keypress::Printable('x'));
    assert!(brain.get_action(&probe, &mut level).is_none());
    level.input = Some(Keypress::Enter);
    assert!(brain.get_action(&probe, &mut level).is_none());
}

#[test]
fn single_point_wander_bound_never_leaves_its_tile() {
    let map = walled_room_map(8, 8);
    let mut level = level_with(vec![player_at(3, 3)], map);
    let bound = Bound { min: Point { x: 0, y: 0 }, max: Point { x: 0, y: 0 } };
    let mut brain = RandomBrainComponent::new(bound);
    let probe = player_at(3, 3);
    let mut rng = Rng::seed_from_u64(11);

    for _ in 0..50 {
        match brain.get_action(&probe, &mut level, &mut rng) {
            Some(Action::Walk(w)) => {
                assert_eq!(w.offset, Some(Point { x: 0, y: 0 }));
            }
            _ => panic!("the wander brain always walks"),
        }
    }

    // performing the zero-offset walk never changes the position: the
    // entity's own tile is occupied, so the walk degrades to a wait
    let action = Action::Walk(WalkAction::from_offset(Point { x: 0, y: 0 }, 0));
    let result = action.perform(&mut level);
    assert!(result.success);
    assert!(matches!(result.alternate, Some(Action::Wait(_))));
    assert_eq!(level.entities[0].position, Point { x: 3, y: 3 });
}

#[test]
fn wander_respects_a_wide_bound_per_axis() {
    let map = walled_room_map(8, 8);
    let mut level = level_with(vec![player_at(3, 3)], map);
    let bound = Bound { min: Point { x: -1, y: 0 }, max: Point { x: 1, y: 0 } };
    let mut brain = RandomBrainComponent::new(bound);
    let probe = player_at(3, 3);
    let mut rng = Rng::seed_from_u64(17);

    for _ in 0..50 {
        match brain.get_action(&probe, &mut level, &mut rng) {
            Some(Action::Walk(w)) => {
                let o = w.offset.unwrap();
                assert!((-1..=1).contains(&o.x));
                // the bound pins the y axis to zero
                assert_eq!(o.y, 0);
            }
            _ => panic!("the wander brain always walks"),
        }
    }
}

#[test]
fn idle_brain_always_waits() {
    let map = walled_room_map(8, 8);
    let mut level = level_with(vec![player_at(3, 3)], map);
    level.current_actor = 0;
    let mut brain = NoBrainComponent::new();
    let probe = player_at(3, 3);
    match brain.get_action(&probe, &mut level) {
        Some(Action::Wait(WaitAction { target })) => assert_eq!(target, 0),
        _ => panic!("the idle brain must wait"),
    }
}

#[test]
fn entity_constructors_set_their_traits() {
    let k = Entity::kobold(4, 5);
    assert_eq!(k.position, Point { x: 4, y: 5 });
    assert_eq!(k.last_position, Point { x: -1, y: -1 });
    assert_eq!(k.get_health(), 12);
    assert_eq!(k.display_char, 'k');
    assert!(k.is_hostile);
    assert!(!k.player);
    assert!(matches!(k.brain_component, Brain::Aggro(_)));

    let p = Entity::player(Point { x: 9, y: 9 });
    assert_eq!(p.position, Point { x: 9, y: 9 });
    assert_eq!(p.get_health(), 15);
    assert_eq!(p.display_char, '@');
    assert!(p.player);
    assert!(!p.is_hostile);
    assert!(matches!(p.brain_component, Brain::Player(_)));
}

#[test]
fn actor_set_position_remembers_the_previous_tile() {
    let mut e = Entity::kobold(2, 2);
    e.set_position(Point { x: 5, y: 7 });
    assert_eq!(e.get_position(), Point { x: 5, y: 7 });
    assert_eq!(e.get_last_position(), Point { x: 2, y: 2 });
    assert_eq!(e.get_display_char(), 'k');
    assert_eq!(Actor::get_health(&e), 12);
}

#[test]
fn wander_offsets_are_reproducible_from_the_seed() {
    let map = walled_room_map(8, 8);
    let mut level = level_with(vec![player_at(3, 3)], map);
    let bound = Bound { min: Point { x: -1, y: -1 }, max: Point { x: 1, y: 1 } };
    let mut brain_a = RandomBrainComponent::new(bound);
    let mut brain_b = RandomBrainComponent::new(bound);
    let probe = player_at(3, 3);
    let mut rng_a = Rng::seed_from_u64(23);
    let mut rng_b = Rng::seed_from_u64(23);
    for _ in 0..32 {
        let a = brain_a.get_action(&probe, &mut level, &mut rng_a);
        let b = brain_b.get_action(&probe, &mut level, &mut rng_b);
        match (a, b) {
            (Some(Action::Walk(wa)), Some(Action::Walk(wb))) => {
                assert_eq!(wa.offset, wb.offset);
            }
            _ => panic!("the wander brain always walks"),
        }
    }
}
