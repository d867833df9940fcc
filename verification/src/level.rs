//! The level: entities, items, the map, and (in this module's second
//! half) the scheduler that drives one round of turns.

use vstd::prelude::*;

use crate::action::{Action, WalkAction};
use crate::actor::Entity;
use crate::ai::interior;
use crate::map::Rect;
use crate::rng::Draw;
use crate::brain::{brain_wf, Brain};
use crate::item::ItemsMap;
use crate::map::{DungeonMapComponent, Tile};
use crate::rng::Rng;
use crate::util::{Bound, Keypress, Point};

verus! {

/// Struct containing all of the data necessary for representing a
/// single level of the game.
pub struct Level {
    /// The friendly and aggressive entities on the level; slot 0 holds
    /// the player.
    pub entities: Vec<Entity>,
    /// All the items on the level, keyed by position.
    pub items: ItemsMap,
    /// The map holding the meat of the level data.
    pub map_component: DungeonMapComponent,
    /// Input handed down from the surrounding game loop.
    pub input: Option<Keypress>,
    /// The entity who can act at a given moment.
    pub current_actor: usize,
}

impl Level {
    /// An entity is sound for this level: it stands strictly inside the
    /// walled border and its brain's cache is sound for the map.
    pub open spec fn entity_wf(self, e: Entity) -> bool {
        interior(self.map_component, e.position) && brain_wf(e.brain_component, self.map_component)
    }

    /// Some entity stands at the tile.
    pub open spec fn has_entity_at(self, x: int, y: int) -> bool {
        exists|i: int|
            0 <= i < self.entities@.len() && ((#[trigger] self.entities@[i]).position.x == x
                && self.entities@[i].position.y == y)
    }

    /// Every tile's occupancy flag agrees with where the entities
    /// actually stand: the single synchronization point for this is the
    /// walk action.
    pub open spec fn occupancy_synced(self) -> bool {
        forall|x: int, y: int|
            0 <= x < self.map_component.width() && 0 <= y < self.map_component.height() ==> ((
            #[trigger] self.map_component.grid()[x][y]).occupied <==> self.has_entity_at(x, y))
    }

    /// No two entities share a tile.
    pub open spec fn positions_distinct(self) -> bool {
        forall|i: int, j: int|
            #![trigger self.entities@[i], self.entities@[j]]
            0 <= i < self.entities@.len() && 0 <= j < self.entities@.len() && i != j
                ==> self.entities@[i].position != self.entities@[j].position
    }

    /// Well-formedness of a level: a well-formed enclosed map, at least
    /// the player entity with the player's brain in slot 0, every entity
    /// strictly inside the border on its own tile, occupancy in sync,
    /// and the turn cursor within range.
    pub open spec fn wf(self) -> bool {
        &&& self.map_component.wf()
        &&& self.entities@.len() >= 1
        &&& self.current_actor <= self.entities@.len()
        &&& self.entities@[0].brain_component is Player
        &&& forall|i: int|
            0 <= i < self.entities@.len() ==> self.entity_wf(#[trigger] self.entities@[i])
        &&& self.positions_distinct()
        &&& self.occupancy_synced()
    }

    /// Creates a basic level: a generated dungeon map, a starter item,
    /// the player (passed in or newly created) at the map's spawn point,
    /// and up to three kobolds at random room positions. A kobold whose
    /// drawn tile is already occupied is not spawned, so occupancy stays
    /// in sync with the entities by construction.
    #[verifier::loop_isolation(false)]
    #[verifier::rlimit(60)]
    pub fn new(width: i32, height: i32, random: &mut Rng, p: Option<Entity>) -> (r: Level)
        requires
            12 <= width <= 0x4000,
            12 <= height <= 0x4000,
            p matches Some(e) ==> e.brain_component is Player,
        ensures
            r.wf(),
            r.current_actor == 0,
            r.input is None,
            1 <= r.entities@.len() <= 4,
            r.entities@[0].position == r.map_component.player_start,
            p matches Some(e) ==> r.entities@[0] == (Entity {
                position: r.map_component.player_start,
                last_position: e.position,
                ..e
            }),
            p is None ==> r.entities@[0].player && r.entities@[0].health == 15
                && r.entities@[0].display_char == '@',
            forall|i: int|
                1 <= i < r.entities@.len() ==> {
                    let e = #[trigger] r.entities@[i];
                    &&& e.display_char == 'k'
                    &&& e.is_hostile
                    &&& e.health == 12
                    &&& e.last_position == (Point { x: -1i32, y: -1i32 })
                    &&& !e.player
                    &&& e.inventory@.len() == 0
                    &&& e.wielded is None
                    &&& (e.brain_component matches Brain::Aggro(a) && a.path@.len() == 0)
                },
            ({
                let gs = crate::map::spec_generate(
                    old(random).seed(),
                    old(random).draws(),
                    width as int,
                    height as int,
                );
                r.map_component.rooms@ == gs.rooms && r.map_component.player_start
                    == gs.player_start && crate::map::grids_same_but_occupied(
                    gs.grid,
                    r.map_component.grid(),
                )
            }),
            r.map_component.bounds == (Bound {
                min: Point { x: 0, y: 0 },
                max: Point { x: width, y: height },
            }),
            crate::map::rooms_disjoint(r.map_component.rooms@),
            forall|k: int|
                0 <= k < r.map_component.rooms@.len() ==> crate::map::room_in_bounds(
                    #[trigger] r.map_component.rooms@[k],
                    width as int,
                    height as int,
                ),
            final(random).seed() == old(random).seed(),
            ({
                let gs = crate::map::spec_generate(
                    old(random).seed(),
                    old(random).draws(),
                    width as int,
                    height as int,
                );
                let titems = gs.trace.push(
                    Draw::RangeI32(gs.rooms[0].x1 + 1, gs.rooms[0].x2 as int),
                ).push(Draw::RangeI32(gs.rooms[0].y1 + 1, gs.rooms[0].y2 as int));
                let seeded = crate::map::grid_occupied_set(
                    gs.grid,
                    gs.player_start.x as int,
                    gs.player_start.y as int,
                    true,
                );
                let st = spec_spawn_state(
                    old(random).seed(),
                    gs.rooms,
                    titems,
                    seeded,
                    width as int,
                    height as int,
                    3,
                );
                &&& final(random).draws() == st.2
                &&& r.entities@.len() == 1 + st.0.len()
                &&& forall|i: int|
                    1 <= i < r.entities@.len() ==> (#[trigger] r.entities@[i]).position == st.0[i
                        - 1]
                &&& r.map_component.grid() == st.1
            }),
            ({
                let gs = crate::map::spec_generate(
                    old(random).seed(),
                    old(random).draws(),
                    width as int,
                    height as int,
                );
                let ip = Point {
                    x: crate::rng::stream_i32(
                        old(random).seed(),
                        gs.trace,
                        gs.rooms[0].x1 + 1,
                        gs.rooms[0].x2 as int,
                    ) as i32,
                    y: crate::rng::stream_i32(
                        old(random).seed(),
                        gs.trace.push(Draw::RangeI32(gs.rooms[0].x1 + 1, gs.rooms[0].x2 as int)),
                        gs.rooms[0].y1 + 1,
                        gs.rooms[0].y2 as int,
                    ) as i32,
                };
                &&& r.items.items().dom() == set![ip]
                &&& r.items.items()[ip].position == ip
                &&& r.items.items()[ip].item_type == crate::item::ItemType::WEAPON
                &&& r.items.items()[ip].name@ == "Sword"@
                &&& crate::map::room_holds(gs.rooms[0], ip)
            }),
            forall|i: int|
                1 <= i < r.entities@.len() ==> exists|k: int|
                    0 <= k < r.map_component.rooms@.len() && crate::map::room_holds(
                        #[trigger] r.map_component.rooms@[k],
                        (#[trigger] r.entities@[i]).position,
                    ),
    {
        let ghost t0 = random.draws();
        let mut mc = crate::map::DungeonMapComponent::new(width, height, random);
        let ghost gs = crate::map::spec_generate(
            old(random).seed(),
            t0,
            width as int,
            height as int,
        );

        proof {
            crate::map::lemma_center_bounds(mc.rooms@[0]);
        }

        let items = crate::item::place_items(mc.get_rooms(), random);
        let player_pos = mc.get_player_start();

        let mut entities: Vec<Entity> = Vec::new();
        if let Some(player) = p {
            let mut player = player;
            player.last_position = player.position;
            player.position = player_pos;
            entities.push(player);
        } else {
            entities.push(Entity::player(player_pos));
        }

        mc.set_occupied(player_pos.x, player_pos.y, true);
        proof {
            crate::map::lemma_occupied_set_keeps_same(
                gs.grid,
                gs.grid,
                player_pos.x as int,
                player_pos.y as int,
                true,
            );
        }

        let mut level = Level { items, entities, map_component: mc, input: None, current_actor: 0 };

        proof {
            assert forall|x: int, y: int|
                0 <= x < level.map_component.width() && 0 <= y
                    < level.map_component.height() implies ((
            #[trigger] level.map_component.grid()[x][y]).occupied <==> level.has_entity_at(
                x,
                y,
            )) by {
                if x == player_pos.x as int && y == player_pos.y as int {
                    assert(level.entities@[0].position.x == x && level.entities@[0].position.y
                        == y);
                } else {
                    assert(level.map_component.grid()[x][y] == crate::map::grid_occupied_set(
                        gs.grid,
                        player_pos.x as int,
                        player_pos.y as int,
                        true,
                    )[x][y]);
                    assert(gs.grid[x][y] == Tile::wall_tile() || gs.grid[x][y]
                        == Tile::floor_tile());
                    if level.has_entity_at(x, y) {
                        let i = choose|i: int|
                            0 <= i < level.entities@.len() && ((
                            #[trigger] level.entities@[i]).position.x == x
                                && level.entities@[i].position.y == y);
                        assert(i == 0);
                    }
                }
            }
            assert(level.wf());
        }

        let ghost items_seeded = level.items;
        let ghost titems = gs.trace.push(
            Draw::RangeI32(gs.rooms[0].x1 + 1, gs.rooms[0].x2 as int),
        ).push(Draw::RangeI32(gs.rooms[0].y1 + 1, gs.rooms[0].y2 as int));
        let ghost seeded = crate::map::grid_occupied_set(
            gs.grid,
            gs.player_start.x as int,
            gs.player_start.y as int,
            true,
        );
        proof {
            assert(level.map_component.grid() == seeded);
        }

        let mut spawned: i32 = 0;
        while spawned < 3
            invariant
                level.wf(),
                level.current_actor == 0,
                level.input is None,
                1 <= level.entities@.len() <= 1 + spawned,
                0 <= spawned <= 3,
                level.entities@[0] == entities@[0],
                forall|i: int|
                    1 <= i < level.entities@.len() ==> {
                        let e = #[trigger] level.entities@[i];
                        &&& e.display_char == 'k'
                        &&& e.is_hostile
                        &&& e.health == 12
                        &&& e.last_position == (Point { x: -1i32, y: -1i32 })
                        &&& !e.player
                        &&& e.inventory@.len() == 0
                        &&& e.wielded is None
                        &&& (e.brain_component matches Brain::Aggro(a) && a.path@.len() == 0)
                    },
                level.map_component.rooms@ == gs.rooms,
                level.map_component.player_start == gs.player_start,
                level.map_component.bounds == mc.bounds,
                level.items == items_seeded,
                crate::map::grids_same_but_occupied(gs.grid, level.map_component.grid()),
                random.seed() == old(random).seed(),
                ({
                    let st = spec_spawn_state(
                        old(random).seed(),
                        gs.rooms,
                        titems,
                        seeded,
                        width as int,
                        height as int,
                        spawned as nat,
                    );
                    &&& random.draws() == st.2
                    &&& level.entities@.len() == 1 + st.0.len()
                    &&& (forall|i: int|
                        1 <= i < level.entities@.len() ==> (
                        #[trigger] level.entities@[i]).position == st.0[i - 1])
                    &&& level.map_component.grid() == st.1
                }),
                forall|i: int|
                    1 <= i < level.entities@.len() ==> exists|k: int|
                        0 <= k < gs.rooms.len() && crate::map::room_holds(
                            #[trigger] gs.rooms[k],
                            (#[trigger] level.entities@[i]).position,
                        ),
            decreases 3 - spawned,
        {
            // a random interior point of a random room
            let nrooms = level.map_component.get_rooms().len();
            let room_num = random.gen_range_usize(0, nrooms);
            let room = level.map_component.rooms[room_num];
            let spawn_point = room.rand_point(random);

            proof {
                assert(crate::map::room_in_bounds(
                    room,
                    level.map_component.width(),
                    level.map_component.height(),
                ));
            }

            if !level.map_component.is_occupied(spawn_point.x, spawn_point.y) {
                let ghost pre = level;
                level.entities.push(Entity::kobold(spawn_point.x, spawn_point.y));
                level.map_component.set_occupied(spawn_point.x, spawn_point.y, true);
                proof {
                    lemma_spawn_wf(pre, level, level.entities@.last());
                    crate::map::lemma_occupied_set_keeps_same(
                        gs.grid,
                        pre.map_component.grid(),
                        spawn_point.x as int,
                        spawn_point.y as int,
                        true,
                    );
                }
            }

            spawned += 1;
        }

        level
    }
}

/// The roster, grid and draw trace after `k` spawn attempts, starting
/// from the grid `g0` (the generated map with the player's tile already
/// flagged): each attempt draws a room index and an interior point of
/// that room; the kobold is placed — and its tile flagged occupied —
/// only when that tile is still free, so occupancy stays in sync by
/// construction.
pub open spec fn spec_spawn_state(
    seed: u64,
    rooms: Seq<Rect>,
    t0: Seq<Draw>,
    g0: Seq<Seq<Tile>>,
    w: int,
    h: int,
    k: nat,
) -> (Seq<Point>, Seq<Seq<Tile>>, Seq<Draw>)
    decreases k,
{
    if k == 0 {
        (Seq::empty(), g0, t0)
    } else {
        let prev = spec_spawn_state(seed, rooms, t0, g0, w, h, (k - 1) as nat);
        let t1 = prev.2;
        let idx = crate::rng::stream_usize(seed, t1, 0, rooms.len() as int);
        let room = rooms[idx];
        let t2 = t1.push(Draw::RangeUsize(0, rooms.len() as int));
        let px = crate::rng::stream_i32(seed, t2, room.x1 + 1, room.x2 as int);
        let t3 = t2.push(Draw::RangeI32(room.x1 + 1, room.x2 as int));
        let py = crate::rng::stream_i32(seed, t3, room.y1 + 1, room.y2 as int);
        let t4 = t3.push(Draw::RangeI32(room.y1 + 1, room.y2 as int));
        let p = Point { x: px as i32, y: py as i32 };
        if 0 <= p.x < w && 0 <= p.y < h && prev.1[p.x as int][p.y as int].occupied {
            (prev.0, prev.1, t4)
        } else {
            (
                prev.0.push(p),
                crate::map::grid_occupied_set(prev.1, p.x as int, p.y as int, true),
                t4,
            )
        }
    }
}

/// How far an action chain can still go: a walk may hand back a wait,
/// a wait hands back nothing.
pub open spec fn action_rank(a: Action) -> int {
    match a {
        Action::Walk(_) => 2,
        Action::Wait(_) => 1,
    }
}

/// How far an optional action chain can still go.
pub open spec fn opt_action_rank(a: Option<Action>) -> int {
    match a {
        None => 0,
        Some(act) => action_rank(act),
    }
}

/// The level after a wait by the entity in slot `t`: only that entity's
/// last position refreshes; the cursor is not the action's business.
pub open spec fn wait_applied(pre: Level, post: Level, t: int) -> bool {
    &&& post.entities@ == pre.entities@.update(
        t,
        (Entity { last_position: pre.entities@[t].position, ..pre.entities@[t] }),
    )
    &&& post.map_component == pre.map_component
    &&& post.input == pre.input
    &&& post.items == pre.items
}

/// The level after a walk request and its full alternate chain: onto a
/// free tile the entity moves and exactly the two occupancy flags swap;
/// onto a blocked or occupied tile the chain degrades to the wait.
pub open spec fn walk_applied(pre: Level, post: Level, w: WalkAction) -> bool {
    let t = w.target as int;
    let pos = pre.entities@[t].position;
    let rx = crate::action::spec_resolve(w, pos).0;
    let ry = crate::action::spec_resolve(w, pos).1;
    if !pre.map_component.spec_blocked(rx, ry) && !pre.map_component.spec_occupied(rx, ry) {
        &&& post.entities@ == pre.entities@.update(
            t,
            (Entity {
                position: Point { x: rx as i32, y: ry as i32 },
                last_position: pos,
                ..pre.entities@[t]
            }),
        )
        &&& post.map_component.grid() == crate::map::grid_occupied_set(
            crate::map::grid_occupied_set(pre.map_component.grid(), rx, ry, true),
            pos.x as int,
            pos.y as int,
            false,
        )
        &&& post.map_component.bounds == pre.map_component.bounds
        &&& post.map_component.rooms@ == pre.map_component.rooms@
        &&& post.map_component.player_start == pre.map_component.player_start
        &&& post.input == pre.input
        &&& post.items == pre.items
    } else {
        wait_applied(pre, post, t)
    }
}

/// The level after one decided action and its full alternate chain.
pub open spec fn turn_applied(pre: Level, post: Level, a: Action) -> bool {
    match a {
        Action::Wait(ww) => wait_applied(pre, post, ww.target as int),
        Action::Walk(w) => walk_applied(pre, post, w),
    }
}

/// One decision the brain of the entity in slot `i` may make, stated
/// over the level's components: what the brains' own contracts allow of
/// the decision, the new brain state, the map (at most highlight
/// colours change, and only under a pursuit brain), and the stream.
pub open spec fn decided_at(
    lvl: Level,
    i: int,
    r: Option<Action>,
    brain2: Brain,
    map2: DungeonMapComponent,
    seed: u64,
    d0: Seq<Draw>,
    d1: Seq<Draw>,
) -> bool {
    let e = lvl.entities@[i];
    match e.brain_component {
        Brain::Player(_) => {
            &&& brain2 == e.brain_component
            &&& map2 == lvl.map_component
            &&& d1 == d0
            &&& r == crate::brain::spec_player_action(lvl.input, lvl.current_actor)
        },
        Brain::Idle(_) => {
            &&& brain2 == e.brain_component
            &&& map2 == lvl.map_component
            &&& d1 == d0
            &&& r == Some(Action::Wait(crate::action::WaitAction { target: lvl.current_actor }))
        },
        Brain::Random(rb) => {
            &&& brain2 == e.brain_component
            &&& map2 == lvl.map_component
            &&& ({
                let xa = crate::brain::wander_axis(seed, d0, rb.bounds, true, 64);
                let ya = crate::brain::wander_axis(seed, xa.1, rb.bounds, false, 64);
                d1 == ya.1 && r == Some(
                    Action::Walk(
                        crate::action::WalkAction {
                            direction: crate::action::Direction::NoDir,
                            target: lvl.current_actor,
                            offset: Some(Point { x: xa.0 as i32, y: ya.0 as i32 }),
                            point: None,
                        },
                    ),
                )
            })
        },
        Brain::Aggro(ab) => {
            &&& d1 == d0
            &&& crate::map::map_same_but_color(lvl.map_component, map2)
            &&& (brain2 matches Brain::Aggro(ab2) && crate::brain::aggro_move_ok(
                ab,
                ab2,
                r,
                lvl.map_component,
                lvl.entities@[0].position,
                lvl.entities@[0].last_position,
                lvl.current_actor,
                e.position,
            ))
        },
    }
}

/// The wait that a blocked walk hands back as its alternate, still to
/// be performed by the chain.
spec fn blocked_walk_alternate(lvl: Level, first: Action, a2: Action) -> bool {
    match first {
        Action::Walk(w) => {
            let pos = lvl.entities@[w.target as int].position;
            let rx = crate::action::spec_resolve(w, pos).0;
            let ry = crate::action::spec_resolve(w, pos).1;
            &&& a2 == Action::Wait(crate::action::WaitAction { target: w.target })
            &&& !(!lvl.map_component.spec_blocked(rx, ry) && !lvl.map_component.spec_occupied(
                rx,
                ry,
            ))
        },
        Action::Wait(_) => false,
    }
}

/// One complete turn the scheduler takes: the entity at the cursor makes
/// a decision its brain's contract allows, the decided action and its
/// alternate chain are performed, and the cursor advances by one.
pub open spec fn turn_ok(pre: Level, post: Level, seed: u64, d0: Seq<Draw>, d1: Seq<Draw>) -> bool {
    let i = pre.current_actor as int;
    &&& pre.current_actor < pre.entities@.len()
    &&& post.current_actor == pre.current_actor + 1
    &&& exists|a: Action, brain2: Brain, mid: Level|
        {
            &&& #[trigger] decided_at(pre, i, Some(a), brain2, mid.map_component, seed, d0, d1)
            &&& mid.entities@ == pre.entities@.update(
                i,
                (Entity { brain_component: brain2, ..pre.entities@[i] }),
            )
            &&& mid.current_actor == pre.current_actor
            &&& mid.input == pre.input
            &&& mid.items == pre.items
            &&& turn_applied(mid, post, a)
        }
}

/// The level `post` arises from `pre` by at most `fuel` complete turns.
pub open spec fn scheduler_runs(
    pre: Level,
    post: Level,
    seed: u64,
    d0: Seq<Draw>,
    d1: Seq<Draw>,
    fuel: nat,
) -> bool
    decreases fuel,
{
    ||| (post == pre && d1 == d0)
    ||| (fuel > 0 && exists|mid: Level, dm: Seq<Draw>|
        #[trigger] turn_ok(pre, mid, seed, d0, dm) && scheduler_runs(
            mid,
            post,
            seed,
            dm,
            d1,
            (fuel - 1) as nat,
        ))
}

/// A run extends by one more turn at its end.
proof fn lemma_runs_snoc(
    a: Level,
    b: Level,
    c: Level,
    seed: u64,
    d0: Seq<Draw>,
    d1: Seq<Draw>,
    d2: Seq<Draw>,
    fuel: nat,
)
    requires
        scheduler_runs(a, b, seed, d0, d1, fuel),
        turn_ok(b, c, seed, d1, d2),
    ensures
        scheduler_runs(a, c, seed, d0, d2, fuel + 1),
    decreases fuel,
{
    if fuel > 0 && exists|mid: Level, dm: Seq<Draw>|
        #[trigger] turn_ok(a, mid, seed, d0, dm) && scheduler_runs(
            mid,
            b,
            seed,
            dm,
            d1,
            (fuel - 1) as nat,
        ) {
        let (mid, dm) = choose|mid: Level, dm: Seq<Draw>|
            #[trigger] turn_ok(a, mid, seed, d0, dm) && scheduler_runs(
                mid,
                b,
                seed,
                dm,
                d1,
                (fuel - 1) as nat,
            );
        lemma_runs_snoc(mid, b, c, seed, dm, d1, d2, (fuel - 1) as nat);
        assert(scheduler_runs(mid, c, seed, dm, d2, fuel));
    } else {
        assert(a == b && d1 == d0);
        assert(scheduler_runs(c, c, seed, d2, d2, fuel));
        assert(turn_ok(a, c, seed, d0, d2));
    }
}

/// The scheduler has nothing to do but wait for input: the entity whose
/// turn it is carries the player's brain, and the pending input decides
/// nothing.
pub open spec fn awaiting_player(lvl: Level) -> bool {
    &&& lvl.current_actor < lvl.entities@.len()
    &&& lvl.entities@[lvl.current_actor as int].brain_component is Player
    &&& crate::brain::spec_player_action(lvl.input, lvl.current_actor) is None
}

/// An action the scheduler can safely perform on the level: it targets
/// an existing entity, and a walk resolves to a tile of the map.
pub open spec fn chain_action_ok(a: Action, lvl: Level) -> bool {
    &&& a.spec_target() < lvl.entities@.len()
    &&& (a matches Action::Walk(w) ==> lvl.map_component.spec_contains(
        crate::action::spec_resolve(w, lvl.entities@[w.target as int].position).0,
        crate::action::spec_resolve(w, lvl.entities@[w.target as int].position).1,
    ))
}

/// A decided action is performable on the restored level: interior jump
/// targets and unit moves from interior entities resolve to tiles of
/// the map.
proof fn lemma_decided_performable(a: Action, lvl: Level, b: Brain)
    requires
        lvl.wf(),
        lvl.current_actor < lvl.entities@.len(),
        crate::brain::decided_action_ok(Some(a), lvl, b),
    ensures
        chain_action_ok(a, lvl),
{
    match a {
        Action::Walk(w) => {
            let pos = lvl.entities@[w.target as int].position;
            assert(lvl.entity_wf(lvl.entities@[w.target as int]));
            assert(interior(lvl.map_component, pos));
        },
        Action::Wait(_) => {},
    }
}

impl Level {
    /// One scheduler call: from the current actor on, each entity is
    /// asked for an action and the resulting chain (an action plus any
    /// alternates it hands back) is performed, after which the turn
    /// cursor advances. Returns true when the call pauses because the
    /// acting brain decided nothing — only the player's brain may — and
    /// false when every remaining entity acted, in which case the round
    /// is complete and the cursor is back at the player.
    #[verifier::loop_isolation(false)]
    pub fn update(&mut self, random: &mut Rng) -> (paused: bool)
        requires
            old(self).wf(),
        ensures
            final(self).wf(),
            !paused ==> final(self).current_actor == 0,
            final(self).entities@.len() == old(self).entities@.len(),
            final(self).input == old(self).input,
            final(random).seed() == old(random).seed(),
            paused ==> ({
                let cursor = final(self).current_actor;
                &&& cursor < final(self).entities@.len()
                &&& final(self).entities@[cursor as int].brain_component is Player
                &&& crate::brain::spec_player_action(old(self).input, cursor) is None
            }),
            awaiting_player(*old(self)) ==> ({
                &&& paused
                &&& final(self).entities@ == old(self).entities@
                &&& final(self).map_component == old(self).map_component
                &&& final(self).current_actor == old(self).current_actor
                &&& final(self).items == old(self).items
                &&& final(random).draws() == old(random).draws()
            }),
            !paused ==> exists|fuel: nat, stop: Level|
                {
                    &&& #[trigger] scheduler_runs(
                        *old(self),
                        stop,
                        old(random).seed(),
                        old(random).draws(),
                        final(random).draws(),
                        fuel,
                    )
                    &&& stop.current_actor == stop.entities@.len()
                    &&& final(self).entities@ == stop.entities@
                    &&& final(self).map_component == stop.map_component
                    &&& final(self).items == stop.items
                    &&& final(self).input == stop.input
                },
    {
        let ghost seed0 = random.seed();
        let ghost d0 = random.draws();
        let ghost mut turns: nat = 0nat;
        let ghost waiting_at_entry = awaiting_player(*old(self));
        while self.current_actor < self.entities.len()
            invariant
                self.wf(),
                self.entities@.len() == old(self).entities@.len(),
                self.input == old(self).input,
                random.seed() == old(random).seed(),
                waiting_at_entry == awaiting_player(*old(self)),
                waiting_at_entry ==> self.entities@ == old(self).entities@ && self.map_component
                    == old(self).map_component && self.current_actor == old(self).current_actor
                    && self.items == old(self).items && random.draws() == old(random).draws(),
                scheduler_runs(*old(self), *self, seed0, d0, random.draws(), turns),
            decreases self.entities@.len() - self.current_actor,
        {
            let ghost pre = *self;
            let ghost d_iter = random.draws();
            let i = self.current_actor;
            let mut e = self.entities.remove(i);
            proof {
                if e.brain_component is Aggro {
                    assert(pre.entities@[0].brain_component is Player);
                    assert(i >= 1);
                    assert(self.entities@[0] == pre.entities@[0]);
                    assert(pre.entity_wf(pre.entities@[0]));
                }
                assert(pre.entity_wf(pre.entities@[i as int]));
            }
            let action_opt = e.get_action(self, random);
            self.entities.insert(i, e);
            proof {
                assert(self.entities@ =~= pre.entities@.update(i as int, e));
                lemma_restore_wf(pre, *self, i as int, e);
            }

            match action_opt {
                None => {
                    proof {
                        assert(self.entities@[i as int] == e);
                        if waiting_at_entry {
                            assert(self.entities@ =~= pre.entities@);
                        }
                    }
                    return true;
                },
                Some(first) => {
                    proof {
                        assert(self.current_actor == pre.current_actor);
                        lemma_decided_performable(first, *self, pre.entities@[i as int].brain_component);
                    }
                    let ghost lvl0 = *self;
                    let ghost brain2 = e.brain_component;
                    let ghost d_dec = random.draws();
                    let ghost len0 = self.entities@.len();
                    let mut current: Option<Action> = Some(first);
                    while current.is_some()
                        invariant
                            self.wf(),
                            self.current_actor == pre.current_actor,
                            self.entities@.len() == len0,
                            self.input == pre.input,
                            random.seed() == old(random).seed(),
                            random.draws() == d_dec,
                            current matches Some(a) ==> chain_action_ok(a, *self),
                            match current {
                                Some(a2) => (a2 == first && *self == lvl0) || (*self == lvl0
                                    && blocked_walk_alternate(lvl0, first, a2)),
                                None => turn_applied(lvl0, *self, first),
                            },
                        decreases opt_action_rank(current),
                    {
                        let act = current.unwrap();
                        let result = act.perform(self);
                        current = result.alternate;
                    }
                    self.current_actor = self.current_actor + 1;
                    proof {
                        assert(e == (Entity {
                            brain_component: brain2,
                            ..pre.entities@[i as int]
                        }));
                        assert(decided_at(
                            pre,
                            i as int,
                            Some(first),
                            brain2,
                            lvl0.map_component,
                            seed0,
                            d_iter,
                            d_dec,
                        ));
                        assert(turn_ok(pre, *self, seed0, d_iter, d_dec));
                        lemma_runs_snoc(
                            *old(self),
                            pre,
                            *self,
                            seed0,
                            d0,
                            d_iter,
                            d_dec,
                            turns,
                        );
                        turns = turns + 1nat;
                    }
                },
            }
        }

        let ghost stop = *self;
        self.current_actor = 0;
        proof {
            assert(scheduler_runs(*old(self), stop, seed0, d0, random.draws(), turns));
        }
        false
    }
}

/// Putting an entity back in its slot after its brain decided — its
/// position untouched, its brain still sound, the map changed at most
/// in highlight colours — keeps the level well-formed.
proof fn lemma_restore_wf(pre: Level, post: Level, i: int, e: Entity)
    requires
        pre.wf(),
        0 <= i < pre.entities@.len(),
        post.entities@ == pre.entities@.update(i, e),
        e.position == pre.entities@[i].position,
        pre.entities@[i].brain_component is Player ==> e.brain_component is Player,
        brain_wf(e.brain_component, post.map_component),
        crate::map::map_same_but_color(pre.map_component, post.map_component),
        post.map_component.wf(),
        post.current_actor == pre.current_actor,
    ensures
        post.wf(),
{
    crate::map::lemma_same_but_color_wf(pre.map_component, post.map_component);

    assert forall|j: int| 0 <= j < post.entities@.len() implies post.entity_wf(
        #[trigger] post.entities@[j],
    ) by {
        assert(pre.entity_wf(pre.entities@[j]));
        if j != i {
            assert(post.entities@[j] == pre.entities@[j]);
            match post.entities@[j].brain_component {
                Brain::Aggro(a) => {
                    assert(forall|k: int|
                        0 <= k < a.path@.len() ==> interior(
                            pre.map_component,
                            #[trigger] a.path@[k],
                        ));
                    assert(forall|k: int|
                        0 <= k < a.path@.len() ==> interior(
                            post.map_component,
                            #[trigger] a.path@[k],
                        ));
                },
                _ => {},
            }
        }
    }

    assert forall|a: int, b: int|
        #![trigger post.entities@[a], post.entities@[b]]
        0 <= a < post.entities@.len() && 0 <= b < post.entities@.len() && a
            != b implies post.entities@[a].position != post.entities@[b].position by {
        assert(pre.entities@[a].position != pre.entities@[b].position);
        assert(post.entities@[a].position == pre.entities@[a].position);
        assert(post.entities@[b].position == pre.entities@[b].position);
    }

    let w = post.map_component.width();
    let h = post.map_component.height();
    assert forall|x: int, y: int| 0 <= x < w && 0 <= y < h implies ((
    #[trigger] post.map_component.grid()[x][y]).occupied <==> post.has_entity_at(x, y)) by {
        assert(pre.map_component.grid()[x][y].occupied <==> pre.has_entity_at(x, y));
        assert(post.map_component.spec_occupied(x, y) == pre.map_component.spec_occupied(x, y));
        assert(pre.has_entity_at(x, y) == post.has_entity_at(x, y)) by {
            if pre.has_entity_at(x, y) {
                let k = choose|k: int|
                    0 <= k < pre.entities@.len() && ((#[trigger] pre.entities@[k]).position.x == x
                        && pre.entities@[k].position.y == y);
                assert(post.entities@[k].position == pre.entities@[k].position);
            }
            if post.has_entity_at(x, y) {
                let k = choose|k: int|
                    0 <= k < post.entities@.len() && ((#[trigger] post.entities@[k]).position.x
                        == x && post.entities@[k].position.y == y);
                assert(pre.entities@[k].position == post.entities@[k].position);
            }
        }
    }
}

/// Spawning an entity on a free interior tile, and flagging that tile
/// occupied, keeps the level well-formed.
proof fn lemma_spawn_wf(pre: Level, post: Level, e: Entity)
    requires
        pre.wf(),
        crate::ai::interior(pre.map_component, e.position),
        brain_wf(e.brain_component, pre.map_component),
        !pre.map_component.spec_occupied(e.position.x as int, e.position.y as int),
        post.entities@ == pre.entities@.push(e),
        post.map_component.grid() == crate::map::grid_occupied_set(
            pre.map_component.grid(),
            e.position.x as int,
            e.position.y as int,
            true,
        ),
        post.map_component.bounds == pre.map_component.bounds,
        post.map_component.rooms@ == pre.map_component.rooms@,
        post.map_component.player_start == pre.map_component.player_start,
        post.map_component.wf(),
        post.current_actor == pre.current_actor,
    ensures
        post.wf(),
{
    let w = pre.map_component.width();
    let h = pre.map_component.height();
    let t = pre.entities@.len() as int;

    assert(!pre.has_entity_at(e.position.x as int, e.position.y as int));

    assert forall|i: int| 0 <= i < post.entities@.len() implies post.entity_wf(
        #[trigger] post.entities@[i],
    ) by {
        if i < t {
            assert(pre.entity_wf(pre.entities@[i]));
        }
    }

    assert forall|i: int, j: int|
        #![trigger post.entities@[i], post.entities@[j]]
        0 <= i < post.entities@.len() && 0 <= j < post.entities@.len() && i
            != j implies post.entities@[i].position != post.entities@[j].position by {
        if i < t && j < t {
            assert(pre.entities@[i].position != pre.entities@[j].position);
        } else if i == t {
            assert(pre.entities@[j].position.x != e.position.x || pre.entities@[j].position.y
                != e.position.y);
        } else {
            assert(pre.entities@[i].position.x != e.position.x || pre.entities@[i].position.y
                != e.position.y);
        }
    }

    assert forall|x: int, y: int| 0 <= x < w && 0 <= y < h implies ((
    #[trigger] post.map_component.grid()[x][y]).occupied <==> post.has_entity_at(x, y)) by {
        assert(pre.map_component.grid()[x][y].occupied <==> pre.has_entity_at(x, y));
        if x == e.position.x as int && y == e.position.y as int {
            assert(post.entities@[t].position.x == x && post.entities@[t].position.y == y);
        } else {
            assert(post.map_component.grid()[x][y].occupied == pre.map_component.grid()[x][y].occupied);
            assert(pre.has_entity_at(x, y) == post.has_entity_at(x, y)) by {
                if pre.has_entity_at(x, y) {
                    let i = choose|i: int|
                        0 <= i < pre.entities@.len() && ((#[trigger] pre.entities@[i]).position.x
                            == x && pre.entities@[i].position.y == y);
                    assert(post.entities@[i].position == pre.entities@[i].position);
                }
                if post.has_entity_at(x, y) {
                    let i = choose|i: int|
                        0 <= i < post.entities@.len() && ((#[trigger] post.entities@[i]).position.x
                            == x && post.entities@[i].position.y == y);
                    assert(i != t);
                    assert(pre.entities@[i].position == post.entities@[i].position);
                }
            }
        }
    }
}

} // verus!
