use dungeon_core::item::{place_items, symbol_for_type, Item, ItemType, ItemsMap};
use dungeon_core::map::Rect;
use dungeon_core::rng::Rng;
use dungeon_core::util::Point;

#[test]
fn symbols_follow_the_classic_table() {
    assert_eq!(symbol_for_type(&ItemType::WEAPON), ')');
    assert_eq!(symbol_for_type(&ItemType::ARMOR), '[');
    assert_eq!(symbol_for_type(&ItemType::RING), '=');
    assert_eq!(symbol_for_type(&ItemType::AMULET), '"');
    assert_eq!(symbol_for_type(&ItemType::TOOL), '(');
    assert_eq!(symbol_for_type(&ItemType::FOOD), '%');
    assert_eq!(symbol_for_type(&ItemType::POTION), '!');
    assert_eq!(symbol_for_type(&ItemType::SCROLL), '?');
    assert_eq!(symbol_for_type(&ItemType::SPBOOK), '+');
    assert_eq!(symbol_for_type(&ItemType::WAND), '/');
    assert_eq!(symbol_for_type(&ItemType::COIN), '$');
    assert_eq!(symbol_for_type(&ItemType::GEM), '*');
    assert_eq!(symbol_for_type(&ItemType::ROCK), '`');
    assert_eq!(symbol_for_type(&ItemType::BALL), '0');
    assert_eq!(symbol_for_type(&ItemType::CHAIN), '_');
    assert_eq!(symbol_for_type(&ItemType::VENOM), '.');
    assert_eq!(symbol_for_type(&ItemType::ILLOBJ), ']');
}

#[test]
fn items_map_inserts_gets_and_removes() {
    let mut items = ItemsMap::new();
    assert_eq!(items.len(), 0);
    let p = Point { x: 4, y: 9 };
    items.insert(
        p,
        Item { position: p, item_type: ItemType::POTION, name: "Elixir".to_owned() },
    );
    assert_eq!(items.len(), 1);
    let got = items.get(&p).expect("the binding must be there");
    assert_eq!(got.position, p);
    assert!(matches!(got.item_type, ItemType::POTION));
    assert_eq!(got.name, "Elixir");
    assert!(items.get(&Point { x: 0, y: 0 }).is_none());

    // inserting at the same tile replaces: at most one item per tile
    items.insert(
        p,
        Item { position: p, item_type: ItemType::GEM, name: "Opal".to_owned() },
    );
    assert_eq!(items.len(), 1);
    assert!(matches!(items.get(&p).unwrap().item_type, ItemType::GEM));

    let removed = items.remove(&p).expect("the binding must come out");
    assert_eq!(removed.name, "Opal");
    assert_eq!(items.len(), 0);
    assert!(items.remove(&p).is_none());
}

#[test]
fn items_map_values_lists_every_item() {
    let mut items = ItemsMap::new();
    for i in 0..5 {
        let p = Point { x: i, y: 2 * i };
        items.insert(
            p,
            Item { position: p, item_type: ItemType::COIN, name: "Coin".to_owned() },
        );
    }
    let all = items.values();
    assert_eq!(all.len(), 5);
    for item in &all {
        assert_eq!(item.position.y, 2 * item.position.x);
    }
}

#[test]
fn item_position_accessor() {
    let item = Item {
        position: Point { x: 8, y: 1 },
        item_type: ItemType::WEAPON,
        name: "Sword".to_owned(),
    };
    assert_eq!(item.position(), Point { x: 8, y: 1 });
}

#[test]
fn place_items_puts_a_sword_inside_the_first_room() {
    let rooms = vec![Rect::new(10, 10, 8, 8), Rect::new(30, 30, 6, 6)];
    let mut rng = Rng::seed_from_u64(13);
    let items = place_items(&rooms, &mut rng);
    assert_eq!(items.len(), 1);
    let all = items.values();
    let sword = &all[0];
    assert_eq!(sword.name, "Sword");
    assert!(matches!(sword.item_type, ItemType::WEAPON));
    assert!(rooms[0].x1 < sword.position.x && sword.position.x < rooms[0].x2);
    assert!(rooms[0].y1 < sword.position.y && sword.position.y < rooms[0].y2);
    assert_eq!(items.get(&sword.position).unwrap().name, "Sword");
}

#[test]
fn place_items_is_reproducible() {
    let rooms = vec![Rect::new(5, 5, 10, 10)];
    let mut r1 = Rng::seed_from_u64(99);
    let mut r2 = Rng::seed_from_u64(99);
    let a = place_items(&rooms, &mut r1);
    let b = place_items(&rooms, &mut r2);
    assert_eq!(a.values()[0].position, b.values()[0].position);
}
