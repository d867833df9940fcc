use dungeon_core::map::{Rect, Tile};
use dungeon_core::util::{add_punctuation, Bound, Point, PointEquality, XPointRelation, YPointRelation};

#[test]
fn point_offsets_produce_new_points() {
    let p = Point { x: 3, y: -2 };
    let px = p.offset_x(5);
    assert_eq!(px, Point { x: 8, y: -2 });
    let py = p.offset_y(-3);
    assert_eq!(py, Point { x: 3, y: -5 });
    let po = p.offset(-1, 1);
    assert_eq!(po, Point { x: 2, y: -1 });
    // the source point is unchanged: immutable value semantics
    assert_eq!(p, Point { x: 3, y: -2 });
}

#[test]
fn point_compare_x_relations() {
    let p = Point { x: 5, y: 0 };
    assert!(matches!(p.compare_x(Point { x: 3, y: 0 }), XPointRelation::RightOfPoint));
    assert!(matches!(p.compare_x(Point { x: 9, y: 0 }), XPointRelation::LeftOfPoint));
    assert!(matches!(p.compare_x(Point { x: 5, y: 7 }), XPointRelation::OnPointX));
}

#[test]
fn point_compare_y_relations() {
    let p = Point { x: 0, y: 5 };
    assert!(matches!(p.compare_y(Point { x: 0, y: 3 }), YPointRelation::BelowPoint));
    assert!(matches!(p.compare_y(Point { x: 0, y: 9 }), YPointRelation::AbovePoint));
    assert!(matches!(p.compare_y(Point { x: 4, y: 5 }), YPointRelation::OnPointY));
}

#[test]
fn point_compare_equality() {
    let p = Point { x: 2, y: 3 };
    assert!(matches!(p.compare(Point { x: 2, y: 3 }), PointEquality::PointsEqual));
    assert!(matches!(p.compare(Point { x: 2, y: 4 }), PointEquality::PointsNotEqual));
    assert!(matches!(p.compare(Point { x: 1, y: 3 }), PointEquality::PointsNotEqual));
}

#[test]
fn point_distance_is_manhattan() {
    let a = Point { x: 0, y: 0 };
    let b = Point { x: 4, y: 4 };
    assert_eq!(a.distance(&b), 8);
    assert_eq!(b.distance(&a), 8);
    let c = Point { x: -3, y: 2 };
    assert_eq!(a.distance(&c), 5);
    assert_eq!(a.distance(&a), 0);
}

#[test]
fn bound_contains_is_border_inclusive() {
    let b = Bound { min: Point { x: 0, y: 0 }, max: Point { x: 4, y: 3 } };
    assert!(b.contains(Point { x: 0, y: 0 }));
    assert!(b.contains(Point { x: 4, y: 3 }));
    assert!(b.contains(Point { x: 2, y: 1 }));
    assert!(!b.contains(Point { x: 5, y: 1 }));
    assert!(!b.contains(Point { x: -1, y: 1 }));
    assert!(!b.contains(Point { x: 2, y: 4 }));
}

#[test]
fn rect_new_and_center() {
    let r = Rect::new(2, 3, 6, 8);
    assert_eq!(r, Rect { x1: 2, y1: 3, x2: 8, y2: 11 });
    assert_eq!(r.center(), (5, 7));
    let odd = Rect::new(0, 0, 7, 7);
    assert_eq!(odd.center(), (3, 3));
}

#[test]
fn rect_intersection_is_border_inclusive() {
    let a = Rect::new(0, 0, 4, 4);
    let apart = Rect::new(6, 6, 3, 3);
    assert!(!a.intersects_with(&apart));
    assert!(!apart.intersects_with(&a));
    let overlapping = Rect::new(2, 2, 4, 4);
    assert!(a.intersects_with(&overlapping));
    // rooms that merely touch still count as intersecting: the one-tile
    // margin that keeps generated rooms from fusing
    let touching = Rect::new(4, 0, 3, 3);
    assert!(a.intersects_with(&touching));
}

#[test]
fn tile_constructors() {
    let floor = Tile::empty();
    assert!(!floor.blocked);
    assert!(!floor.block_sight);
    assert!(!floor.explored);
    assert!(!floor.occupied);
    assert!(floor.color_override.is_none());
    let wall = Tile::wall();
    assert!(wall.blocked);
    assert!(wall.block_sight);
    assert!(!wall.explored);
    assert!(!wall.occupied);
    assert!(wall.color_override.is_none());
}

#[test]
fn exit_variants_compare() {
    assert_eq!(dungeon_core::Exit::Save, dungeon_core::Exit::Save);
    assert_ne!(dungeon_core::Exit::Save, dungeon_core::Exit::Die);
}

#[test]
fn add_punctuation_closes_open_sentences() {
    assert_eq!(add_punctuation("hello".to_string()), "hello.");
    assert_eq!(add_punctuation("done.".to_string()), "done.");
    assert_eq!(add_punctuation("really!".to_string()), "really!");
    assert_eq!(add_punctuation("why?".to_string()), "why?");
    assert_eq!(add_punctuation(String::new()), ".");
    assert_eq!(add_punctuation("half?way".to_string()), "half?way.");
}
