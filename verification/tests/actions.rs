use dungeon_core::action::{Action, Direction, WaitAction, WalkAction};
use dungeon_core::actor::Entity;
use dungeon_core::brain::{Brain, NoBrainComponent, PlayerBrainComponent};
use dungeon_core::item::ItemsMap;
use dungeon_core::level::Level;
use dungeon_core::map::{DungeonMapComponent, Tile};
use dungeon_core::util::{Bound, Point};

fn walled_room_map(w: i32, h: i32) -> DungeonMapComponent {
    let mut grid = Vec::new();
    for x in 0..w {
        let mut col = Vec::new();
        for y in 0..h {
            if x == 0 || y == 0 || x == w - 1 || y == h - 1 {
                col.push(Tile::wall());
            } else {
                col.push(Tile::empty());
            }
        }
        grid.push(col);
    }
    DungeonMapComponent {
        rooms: Vec::new(),
        map: grid,
        player_start: Point { x: 1, y: 1 },
        bounds: Bound { min: Point { x: 0, y: 0 }, max: Point { x: w, y: h } },
    }
}

fn player_at(x: i32, y: i32) -> Entity {
    let mut e = Entity::new(x, y, 15, '@', Brain::Player(PlayerBrainComponent::new()), false);
    e.player = true;
    e
}

fn level_with(entities: Vec<Entity>, map: DungeonMapComponent) -> Level {
    let mut map = map;
    for e in &entities {
        map.set_occupied(e.position.x, e.position.y, true);
    }
    Level { entities, items: ItemsMap::new(), map_component: map, input: None, current_actor: 0 }
}

#[test]
fn walk_into_free_tile_moves_and_swaps_occupancy() {
    let mut level = level_with(vec![player_at(2, 2)], walled_room_map(8, 8));
    let action = Action::Walk(WalkAction::new(Direction::E, 0));
    let result = action.perform(&mut level);
    assert!(result.success);
    assert!(result.alternate.is_none());
    assert_eq!(level.entities[0].position, Point { x: 3, y: 2 });
    assert_eq!(level.entities[0].last_position, Point { x: 2, y: 2 });
    assert!(level.map_component.is_occupied(3, 2));
    assert!(!level.map_component.is_occupied(2, 2));
}

#[test]
fn walk_into_wall_is_safe_and_hands_back_a_wait() {
    let mut level = level_with(vec![player_at(1, 1)], walled_room_map(8, 8));
    // west of (1,1) is the border wall at (0,1)
    let action = Action::Walk(WalkAction::new(Direction::W, 0));
    let result = action.perform(&mut level);
    assert!(result.success);
    assert_eq!(level.entities[0].position, Point { x: 1, y: 1 });
    assert_eq!(level.entities[0].last_position, Point { x: -1, y: -1 });
    assert!(level.map_component.is_occupied(1, 1));
    match result.alternate {
        Some(Action::Wait(WaitAction { target })) => assert_eq!(target, 0),
        _ => panic!("a blocked walk must substitute a wait"),
    }
}

#[test]
fn walk_into_occupied_tile_is_safe_and_hands_back_a_wait() {
    let mut kobold = Entity::kobold(3, 2);
    kobold.brain_component = Brain::Idle(NoBrainComponent::new());
    let mut level = level_with(vec![player_at(2, 2), kobold], walled_room_map(8, 8));
    let action = Action::Walk(WalkAction::new(Direction::E, 0));
    let result = action.perform(&mut level);
    assert!(result.success);
    assert_eq!(level.entities[0].position, Point { x: 2, y: 2 });
    assert!(matches!(result.alternate, Some(Action::Wait(_))));
    // both entities still occupy their tiles
    assert!(level.map_component.is_occupied(2, 2));
    assert!(level.map_component.is_occupied(3, 2));
}

#[test]
fn walk_resolution_modes_agree() {
    // direction, offset and absolute point modes resolving to the same
    // tile have the same effect
    for action in [
        Action::Walk(WalkAction::new(Direction::SE, 0)),
        Action::Walk(WalkAction::from_offset(Point { x: 1, y: 1 }, 0)),
        Action::Walk(WalkAction::from_point(Point { x: 3, y: 3 }, 0)),
    ] {
        let mut level = level_with(vec![player_at(2, 2)], walled_room_map(8, 8));
        let result = action.perform(&mut level);
        assert!(result.success && result.alternate.is_none());
        assert_eq!(level.entities[0].position, Point { x: 3, y: 3 });
    }
}

#[test]
fn wait_reapplies_the_position() {
    let mut level = level_with(vec![player_at(2, 2)], walled_room_map(8, 8));
    let action = Action::Wait(WaitAction { target: 0 });
    let result = action.perform(&mut level);
    assert!(result.success);
    assert!(result.alternate.is_none());
    assert_eq!(level.entities[0].position, Point { x: 2, y: 2 });
    // the no-op position set still refreshes the last position
    assert_eq!(level.entities[0].last_position, Point { x: 2, y: 2 });
    assert!(level.map_component.is_occupied(2, 2));
}

#[test]
fn walk_constructors_carry_their_mode() {
    let byd = WalkAction::new(Direction::N, 4);
    assert!(matches!(byd.direction, Direction::N));
    assert_eq!(byd.target, 4);
    assert_eq!(byd.offset, None);
    assert_eq!(byd.point, None);

    let byo = WalkAction::from_offset(Point { x: -1, y: 1 }, 2);
    assert!(matches!(byo.direction, Direction::NoDir));
    assert_eq!(byo.offset, Some(Point { x: -1, y: 1 }));
    assert_eq!(byo.point, None);

    let byp = WalkAction::from_point(Point { x: 7, y: 9 }, 1);
    assert!(matches!(byp.direction, Direction::NoDir));
    assert_eq!(byp.offset, None);
    assert_eq!(byp.point, Some(Point { x: 7, y: 9 }));
}
