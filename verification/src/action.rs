//! The action protocol: the commands a brain can request, and how they
//! resolve against the level.
//!
//! A walk onto a blocked or occupied tile is not an error: the action
//! succeeds without moving anything and hands back a wait as its
//! alternate, which the scheduler performs in its place.

use vstd::prelude::*;

use crate::actor::Entity;
use crate::ai::interior;
use crate::level::Level;
use crate::map::grid_occupied_set;
use crate::util::Point;

verus! {

/// The eight compass directions a walk can take, or none.
#[derive(Clone, Copy, Debug)]
pub enum Direction {
    N,
    S,
    E,
    W,
    NE,
    NW,
    SE,
    SW,
    NoDir,
}

/// A request to move one entity: by direction, by relative offset, or to
/// an absolute point.
#[derive(Clone, Copy, Debug)]
pub struct WalkAction {
    pub direction: Direction,
    pub target: usize,
    pub offset: Option<Point>,
    pub point: Option<Point>,
}

impl WalkAction {
    /// A walk one tile along a compass direction.
    pub fn new(direction: Direction, target: usize) -> (a: WalkAction)
        ensures
            a.direction == direction,
            a.target == target,
            a.offset is None,
            a.point is None,
    {
        WalkAction { direction, target, offset: None, point: None }
    }

    /// A walk by a relative offset.
    pub fn from_offset(offset: Point, target: usize) -> (a: WalkAction)
        ensures
            a.direction is NoDir,
            a.target == target,
            a.offset == Some(offset),
            a.point is None,
    {
        WalkAction { direction: Direction::NoDir, target, offset: Some(offset), point: None }
    }

    /// A walk to an absolute point.
    pub fn from_point(point: Point, target: usize) -> (a: WalkAction)
        ensures
            a.direction is NoDir,
            a.target == target,
            a.offset is None,
            a.point == Some(point),
    {
        WalkAction { direction: Direction::NoDir, target, offset: None, point: Some(point) }
    }
}

/// A request that one entity stand still for a turn.
#[derive(Clone, Copy, Debug)]
pub struct WaitAction {
    pub target: usize,
}

/// The closed set of actions a brain can request.
#[derive(Clone, Copy, Debug)]
pub enum Action {
    Walk(WalkAction),
    Wait(WaitAction),
}

/// What performing an action reports: whether the turn may go on, and a
/// substitute action to perform in its place, if any.
#[derive(Clone, Copy, Debug)]
pub struct ActionResult {
    pub success: bool,
    pub alternate: Option<Action>,
}

/// The tile a walk resolves to from the acting entity's position: the
/// offset takes precedence, then the absolute point, then the direction.
pub open spec fn spec_resolve(w: WalkAction, pos: Point) -> (int, int) {
    match w.offset {
        Some(o) => (pos.x + o.x, pos.y + o.y),
        None => match w.point {
            Some(p) => (p.x as int, p.y as int),
            None => match w.direction {
                Direction::N => (pos.x as int, pos.y - 1),
                Direction::S => (pos.x as int, pos.y + 1),
                Direction::W => (pos.x - 1, pos.y as int),
                Direction::E => (pos.x + 1, pos.y as int),
                Direction::NW => (pos.x - 1, pos.y - 1),
                Direction::NE => (pos.x + 1, pos.y - 1),
                Direction::SW => (pos.x - 1, pos.y + 1),
                Direction::SE => (pos.x + 1, pos.y + 1),
                Direction::NoDir => (pos.x as int, pos.y as int),
            },
        },
    }
}

impl Action {
    /// The index of the entity the action moves or holds still.
    pub open spec fn spec_target(self) -> int {
        match self {
            Action::Walk(w) => w.target as int,
            Action::Wait(w) => w.target as int,
        }
    }

    /// Performs the action against the level.
    ///
    /// A walk whose resolved tile is free moves the entity and swaps the
    /// two occupancy flags — the single synchronization point between
    /// entity positions and the map. A walk onto a blocked or occupied
    /// tile changes nothing and reports a wait as its alternate. A wait
    /// re-applies the entity's position, which only updates its
    /// last-position bookkeeping.
    pub fn perform(&self, level: &mut Level) -> (r: ActionResult)
        requires
            old(level).wf(),
            self.spec_target() < old(level).entities@.len(),
            *self matches Action::Walk(w) ==> old(level).map_component.spec_contains(
                spec_resolve(w, old(level).entities@[w.target as int].position).0,
                spec_resolve(w, old(level).entities@[w.target as int].position).1,
            ),
        ensures
            final(level).wf(),
            r.success == true,
            final(level).current_actor == old(level).current_actor,
            final(level).input == old(level).input,
            final(level).items == old(level).items,
            final(level).entities@.len() == old(level).entities@.len(),
            match *self {
                Action::Walk(w) => {
                    let t = w.target as int;
                    let pos = old(level).entities@[t].position;
                    let rx = spec_resolve(w, pos).0;
                    let ry = spec_resolve(w, pos).1;
                    if !old(level).map_component.spec_blocked(rx, ry) && !old(
                        level,
                    ).map_component.spec_occupied(rx, ry) {
                        &&& r.alternate is None
                        &&& final(level).entities@ == old(level).entities@.update(
                            t,
                            (Entity {
                                position: Point { x: rx as i32, y: ry as i32 },
                                last_position: pos,
                                ..old(level).entities@[t]
                            }),
                        )
                        &&& final(level).map_component.grid() == grid_occupied_set(
                            grid_occupied_set(old(level).map_component.grid(), rx, ry, true),
                            pos.x as int,
                            pos.y as int,
                            false,
                        )
                        &&& final(level).map_component.bounds == old(level).map_component.bounds
                        &&& final(level).map_component.rooms@ == old(level).map_component.rooms@
                        &&& final(level).map_component.player_start == old(
                            level,
                        ).map_component.player_start
                    } else {
                        &&& r.alternate == Some(Action::Wait(WaitAction { target: w.target }))
                        &&& *final(level) == *old(level)
                    }
                },
                Action::Wait(w) => {
                    let t = w.target as int;
                    &&& r.alternate is None
                    &&& final(level).entities@ == old(level).entities@.update(
                        t,
                        (Entity {
                            last_position: old(level).entities@[t].position,
                            ..old(level).entities@[t]
                        }),
                    )
                    &&& final(level).map_component == old(level).map_component
                },
            },
    {
        match self {
            Action::Walk(w) => {
                let target = w.target;
                let position = level.entities[target].position;

                let new_position: Point = if let Some(offset) = w.offset {
                    position.offset(offset.x, offset.y)
                } else if let Some(point) = w.point {
                    point
                } else {
                    match w.direction {
                        Direction::N => position.offset_y(-1),
                        Direction::S => position.offset_y(1),
                        Direction::W => position.offset_x(-1),
                        Direction::E => position.offset_x(1),
                        Direction::NW => position.offset(-1, -1),
                        Direction::NE => position.offset(1, -1),
                        Direction::SW => position.offset(-1, 1),
                        Direction::SE => position.offset(1, 1),
                        Direction::NoDir => position,
                    }
                };
                proof {
                    assert((new_position.x as int, new_position.y as int) == spec_resolve(
                        *w,
                        position,
                    ));
                }

                if !level.map_component.is_blocked(new_position.x, new_position.y)
                    && !level.map_component.is_occupied(new_position.x, new_position.y) {
                    let ghost pre = *level;
                    level.entities[target].last_position = position;
                    level.entities[target].position = new_position;
                    level.map_component.set_occupied(new_position.x, new_position.y, true);
                    level.map_component.set_occupied(position.x, position.y, false);
                    proof {
                        assert(level.entities@ =~= pre.entities@.update(
                            target as int,
                            (Entity {
                                position: new_position,
                                last_position: position,
                                ..pre.entities@[target as int]
                            }),
                        ));
                        lemma_walk_move_wf(
                            pre,
                            *level,
                            target as int,
                            position,
                            new_position,
                        );
                    }
                    return ActionResult { success: true, alternate: None };
                }

                ActionResult {
                    success: true,
                    alternate: Some(Action::Wait(WaitAction { target })),
                }
            },
            Action::Wait(w) => {
                let target = w.target;
                let ghost pre = *level;
                let position = level.entities[target].position;
                level.entities[target].last_position = position;
                proof {
                    lemma_wait_wf(pre, *level, target as int);
                }
                ActionResult { success: true, alternate: None }
            },
        }
    }
}

/// Re-applying an entity's position keeps the level well-formed: no
/// position and no tile changes.
proof fn lemma_wait_wf(pre: Level, post: Level, t: int)
    requires
        pre.wf(),
        0 <= t < pre.entities@.len(),
        post.entities@ == pre.entities@.update(
            t,
            (Entity { last_position: pre.entities@[t].position, ..pre.entities@[t] }),
        ),
        post.map_component == pre.map_component,
        post.current_actor == pre.current_actor,
    ensures
        post.wf(),
{
    assert forall|i: int| 0 <= i < post.entities@.len() implies post.entity_wf(
        #[trigger] post.entities@[i],
    ) by {
        assert(pre.entity_wf(pre.entities@[i]));
    }
    let w = pre.map_component.width();
    let h = pre.map_component.height();
    assert forall|x: int, y: int| 0 <= x < w && 0 <= y < h implies ((
    #[trigger] post.map_component.grid()[x][y]).occupied <==> post.has_entity_at(x, y)) by {
        assert(pre.map_component.grid()[x][y].occupied <==> pre.has_entity_at(x, y));
        assert(pre.has_entity_at(x, y) == post.has_entity_at(x, y)) by {
            if pre.has_entity_at(x, y) {
                let i = choose|i: int|
                    0 <= i < pre.entities@.len() && ((#[trigger] pre.entities@[i]).position.x == x
                        && pre.entities@[i].position.y == y);
                assert(post.entities@[i].position == pre.entities@[i].position);
            }
            if post.has_entity_at(x, y) {
                let i = choose|i: int|
                    0 <= i < post.entities@.len() && ((#[trigger] post.entities@[i]).position.x == x
                        && post.entities@[i].position.y == y);
                assert(pre.entities@[i].position == post.entities@[i].position);
            }
        }
    }
}

/// After a successful walk the level is well-formed again: the entity
/// moved onto a free interior tile, and exactly the two occupancy flags
/// swapped.
proof fn lemma_walk_move_wf(pre: Level, post: Level, t: int, pos: Point, newp: Point)
    requires
        pre.wf(),
        0 <= t < pre.entities@.len(),
        pre.entities@[t].position == pos,
        pre.map_component.spec_contains(newp.x as int, newp.y as int),
        !pre.map_component.spec_blocked(newp.x as int, newp.y as int),
        !pre.map_component.spec_occupied(newp.x as int, newp.y as int),
        post.entities@ == pre.entities@.update(
            t,
            (Entity { position: newp, last_position: pos, ..pre.entities@[t] }),
        ),
        post.map_component.grid() == grid_occupied_set(
            grid_occupied_set(pre.map_component.grid(), newp.x as int, newp.y as int, true),
            pos.x as int,
            pos.y as int,
            false,
        ),
        post.map_component.bounds == pre.map_component.bounds,
        post.map_component.rooms@ == pre.map_component.rooms@,
        post.map_component.player_start == pre.map_component.player_start,
        post.current_actor == pre.current_actor,
        post.map_component.wf(),
    ensures
        post.wf(),
{
    let m = pre.map_component;
    let g = m.grid();
    let w = m.width();
    let h = m.height();
    let g2 = post.map_component.grid();

    // the new tile is strictly inside the border
    assert(interior(m, newp)) by {
        if newp.x == 0 || newp.y == 0 || newp.x == w - 1 || newp.y == h - 1 {
            assert(g[newp.x as int][newp.y as int].blocked);
        }
    }

    // nobody stood on the new tile
    assert(!pre.has_entity_at(newp.x as int, newp.y as int));

    // entity soundness is preserved
    assert forall|i: int| 0 <= i < post.entities@.len() implies post.entity_wf(
        #[trigger] post.entities@[i],
    ) by {
        assert(pre.entity_wf(pre.entities@[i]));
    }

    // positions stay distinct
    assert forall|i: int, j: int|
        #![trigger post.entities@[i], post.entities@[j]]
        0 <= i < post.entities@.len() && 0 <= j < post.entities@.len() && i
            != j implies post.entities@[i].position != post.entities@[j].position by {
        assert(pre.entities@[i].position != pre.entities@[j].position);
        if i == t {
            assert(pre.entities@[j].position.x != newp.x || pre.entities@[j].position.y != newp.y);
        }
        if j == t {
            assert(pre.entities@[i].position.x != newp.x || pre.entities@[i].position.y != newp.y);
        }
    }

    // occupancy stays in sync
    assert forall|x: int, y: int| 0 <= x < w && 0 <= y < h implies ((#[trigger] g2[x][y]).occupied
        <==> post.has_entity_at(x, y)) by {
        assert(g[x][y].occupied <==> pre.has_entity_at(x, y));
        if x == newp.x as int && y == newp.y as int {
            assert(g2[x][y].occupied);
            assert(post.entities@[t].position.x == x && post.entities@[t].position.y == y);
        } else if x == pos.x as int && y == pos.y as int {
            assert(!g2[x][y].occupied);
            if post.has_entity_at(x, y) {
                let i = choose|i: int|
                    0 <= i < post.entities@.len() && ((#[trigger] post.entities@[i]).position.x == x
                        && post.entities@[i].position.y == y);
                assert(i != t);
                assert(pre.entities@[i].position == post.entities@[i].position);
                assert(pre.entities@[i].position == pre.entities@[t].position);
            }
        } else {
            assert(g2[x][y].occupied == g[x][y].occupied);
            assert(pre.has_entity_at(x, y) == post.has_entity_at(x, y)) by {
                if pre.has_entity_at(x, y) {
                    let i = choose|i: int|
                        0 <= i < pre.entities@.len() && ((#[trigger] pre.entities@[i]).position.x
                            == x && pre.entities@[i].position.y == y);
                    assert(i != t);
                    assert(post.entities@[i].position == pre.entities@[i].position);
                }
                if post.has_entity_at(x, y) {
                    let i = choose|i: int|
                        0 <= i < post.entities@.len() && ((#[trigger] post.entities@[i]).position.x
                            == x && post.entities@[i].position.y == y);
                    assert(i != t);
                    assert(pre.entities@[i].position == post.entities@[i].position);
                }
            }
        }
    }
}

} // verus!
