//! Decision strategies ("brains"): per tick, each entity's brain turns
//! the level state into at most one action.

use vstd::prelude::*;

use crate::action::{Action, WaitAction, WalkAction};
use crate::actor::Entity;
use crate::ai::{find_astar_path, interior, reachable, DEBUG_AI};
use crate::level::Level;
use crate::map::{ColorRgb, DungeonMapComponent, Tile};
use crate::rng::{stream_i32, Draw, Rng};
use crate::util::{Bound, Keypress, Point};

verus! {

/// A strategy that pursues the player along A* paths, caching the path
/// across ticks.
pub struct AggroBrainComponent {
    /// The remaining cached path towards the player.
    pub path: Vec<Point>,
}

/// A strategy that wanders by unit offsets inside a configured bound.
pub struct RandomBrainComponent {
    /// The rectangular bound the wander offsets must stay inside.
    pub bounds: Bound,
}

/// A strategy that always waits.
pub struct NoBrainComponent;

/// The strategy of the player: it consumes the pending keypress.
pub struct PlayerBrainComponent;

/// The closed set of decision strategies an entity can carry.
pub enum Brain {
    Player(PlayerBrainComponent),
    Aggro(AggroBrainComponent),
    Random(RandomBrainComponent),
    Idle(NoBrainComponent),
}

impl AggroBrainComponent {
    /// Convenience method for creating `AggroBrainComponent`s.
    pub fn new() -> (b: AggroBrainComponent)
        ensures
            b.path@.len() == 0,
    {
        AggroBrainComponent { path: Vec::new() }
    }
}

impl PlayerBrainComponent {
    /// Convenience method for creating `PlayerBrainComponent`s.
    pub fn new() -> (b: PlayerBrainComponent)
    {
        PlayerBrainComponent
    }
}

impl RandomBrainComponent {
    /// Convenience method for creating `RandomBrainComponent`s.
    pub fn new(bound: Bound) -> (b: RandomBrainComponent)
        ensures
            b.bounds == bound,
    {
        RandomBrainComponent { bounds: bound }
    }
}

impl NoBrainComponent {
    /// Convenience method for creating `NoBrainComponent`s.
    pub fn new() -> (b: NoBrainComponent)
    {
        NoBrainComponent
    }
}

/// The core of one pursuit decision, over plain components: with no
/// route the brain waits and leaves the cache alone; standing on the
/// player it waits with an emptied cache; otherwise a recompute takes
/// the second point of a cheapest path and caches the rest, and a cache
/// hit pops the next cached step.
pub open spec fn aggro_move_ok(
    ab: AggroBrainComponent,
    ab2: AggroBrainComponent,
    r: Option<Action>,
    m: DungeonMapComponent,
    player_pos: Point,
    last: Point,
    target: usize,
    pos: Point,
) -> bool {
    let recompute = player_pos != last || ab.path@.len() == 0;
    &&& (match r {
        Some(a) => match a {
            Action::Wait(ww) => ww.target == target,
            Action::Walk(w) => w.target == target && w.offset is None && (w.point matches Some(p)
                && interior(m, p)),
        },
        None => false,
    })
    &&& (recompute && !reachable(m, pos, player_pos) ==> r == Some(
        Action::Wait(WaitAction { target }),
    ) && ab2.path@ == ab.path@)
    &&& (recompute && reachable(m, pos, player_pos) && pos == player_pos ==> r == Some(
        Action::Wait(WaitAction { target }),
    ) && ab2.path@.len() == 0)
    &&& (recompute && reachable(m, pos, player_pos) && pos != player_pos ==> exists|p: Seq<Point>|
        #[trigger] crate::ai::minimal_path(m, p, pos, player_pos) && p.len() >= 2 && r == Some(
            Action::Walk(
                WalkAction {
                    direction: crate::action::Direction::NoDir,
                    target,
                    offset: None,
                    point: Some(p[1]),
                },
            ),
        ) && ab2.path@ == p.drop_first().drop_first())
    &&& (!recompute ==> ab2.path@ == ab.path@.drop_first() && r == Some(
        Action::Walk(
            WalkAction {
                direction: crate::action::Direction::NoDir,
                target,
                offset: None,
                point: Some(ab.path@[0]),
            },
        ),
    ))
}

/// Everything one pursuit decision promises, relating the old and the
/// new path cache, the decided action, and the level before and after.
/// Only highlight colours of the map may change.
pub open spec fn aggro_decision_ok(
    ab: AggroBrainComponent,
    ab2: AggroBrainComponent,
    r: Option<Action>,
    lvl_old: Level,
    lvl_new: Level,
    pos: Point,
) -> bool {
    &&& level_preserved_by_decision(lvl_old, lvl_new)
    &&& aggro_move_ok(
        ab,
        ab2,
        r,
        lvl_old.map_component,
        lvl_old.entities@[0].position,
        lvl_old.entities@[0].last_position,
        lvl_old.current_actor,
        pos,
    )
}

impl AggroBrainComponent {
    /// Tags every tile of the cached path with a highlight colour so the
    /// pursuit can be inspected on screen; observable, never
    /// behaviour-affecting.
    fn show_ai(&self, map: &mut DungeonMapComponent)
        requires
            old(map).wf(),
            forall|i: int|
                0 <= i < self.path@.len() ==> interior(*old(map), #[trigger] self.path@[i]),
        ensures
            final(map).wf(),
            crate::map::map_same_but_color(*old(map), *final(map)),
    {
        if DEBUG_AI {
            if self.path.len() > 0 {
                let mut i: usize = 0;
                while i < self.path.len()
                    invariant
                        0 <= i <= self.path@.len(),
                        map.wf(),
                        crate::map::map_same_but_color(*old(map), *map),
                        forall|k: int|
                            0 <= k < self.path@.len() ==> interior(
                                *old(map),
                                #[trigger] self.path@[k],
                            ),
                    decreases self.path@.len() - i,
                {
                    let point = self.path[i];
                    let ghost before = *map;
                    map.set_color_override(
                        point.x,
                        point.y,
                        Some(ColorRgb { r: 255, g: 0, b: 0 }),
                    );
                    proof {
                        lemma_color_update_same(before, *map, point.x as int, point.y as int);
                        crate::map::lemma_same_but_color_wf(before, *map);
                    }
                    i += 1;
                }
            }
        }
    }

    /// Decides the pursuit move. When the player has moved since last
    /// tick, or nothing is cached, the path to the player is recomputed;
    /// otherwise the cached path supplies the next step. With no route
    /// at all, the brain falls back to waiting.
    pub fn get_action(&mut self, entity: &Entity, level: &mut Level) -> (r: Option<Action>)
        requires
            old(level).map_component.wf(),
            old(level).entities@.len() >= 1,
            interior(old(level).map_component, entity.position),
            interior(old(level).map_component, old(level).entities@[0].position),
            forall|i: int|
                0 <= i < old(self).path@.len() ==> interior(
                    old(level).map_component,
                    #[trigger] old(self).path@[i],
                ),
        ensures
            final(level).map_component.wf(),
            forall|i: int|
                0 <= i < final(self).path@.len() ==> interior(
                    final(level).map_component,
                    #[trigger] final(self).path@[i],
                ),
            aggro_decision_ok(
                *old(self),
                *final(self),
                r,
                *old(level),
                *final(level),
                entity.position,
            ),
    {
        let player_pos = level.entities[0].position;
        let last_player_pos = level.entities[0].last_position;
        let target = level.current_actor;

        if (player_pos.x != last_player_pos.x || player_pos.y != last_player_pos.y)
            || self.path.len() == 0 {
            let path_opt = find_astar_path(&level.map_component, entity.position, player_pos);

            match path_opt {
                Some(path) => {
                    proof {
                        crate::ai::lemma_path_interior(
                            level.map_component,
                            path@,
                            entity.position,
                            player_pos,
                        );
                        if entity.position == player_pos {
                            crate::ai::lemma_minimal_self_path(
                                level.map_component,
                                path@,
                                entity.position,
                            );
                        }
                    }
                    let ghost full = path@;
                    self.path = path;
                    // the first element is the current position
                    self.path.remove(0);
                    proof {
                        assert(self.path@ =~= full.drop_first());
                    }

                    if self.path.len() > 0 {
                        self.show_ai(&mut level.map_component);
                        let next = self.path.remove(0);
                        proof {
                            assert(full.len() >= 2);
                            assert(next == full[1]);
                            assert(self.path@ =~= full.drop_first().drop_first());
                            assert(entity.position != player_pos) by {
                                if entity.position == player_pos {
                                    crate::ai::lemma_minimal_self_path(
                                        level.map_component,
                                        full,
                                        entity.position,
                                    );
                                }
                            }
                        }
                        Some(Action::Walk(WalkAction::from_point(next, target)))
                    } else {
                        proof {
                            assert(full.len() == 1);
                            assert(full[0] == entity.position && full.last() == player_pos);
                            assert(entity.position == player_pos);
                        }
                        Some(Action::Wait(WaitAction { target }))
                    }
                },
                None => Some(Action::Wait(WaitAction { target })),
            }
        } else if self.path.len() > 0 {
            let ghost cache = self.path@;
            self.show_ai(&mut level.map_component);
            let next = self.path.remove(0);
            proof {
                assert(next == cache[0]);
                assert(self.path@ =~= cache.drop_first());
            }
            Some(Action::Walk(WalkAction::from_point(next, target)))
        } else {
            Some(Action::Wait(WaitAction { target }))
        }
    }
}

/// Overwriting one tile's highlight colour changes nothing else of the
/// map.
proof fn lemma_color_update_same(a: DungeonMapComponent, b: DungeonMapComponent, x: int, y: int)
    requires
        a.wf(),
        0 <= x < a.grid().len(),
        0 <= y < a.grid()[x].len(),
        b.rooms@ == a.rooms@,
        b.player_start == a.player_start,
        b.bounds == a.bounds,
        b.grid() == a.grid().update(
            x,
            a.grid()[x].update(y, (Tile { color_override: Some(ColorRgb { r: 255, g: 0, b: 0 }), ..a.grid()[x][y] })),
        ),
    ensures
        crate::map::map_same_but_color(a, b),
{
}

impl PlayerBrainComponent {
    /// Decides the player's move from the pending keypress.
    pub fn get_action(&mut self, _entity: &Entity, level: &mut Level) -> (r: Option<Action>)
        ensures
            *final(self) == *old(self),
            *final(level) == *old(level),
            r == spec_player_action(old(level).input, old(level).current_actor),
    {
        let target = level.current_actor;

        match level.input {
            Some(keypress) => match keypress {
                Keypress::NumPad8 | Keypress::Up => Some(
                    Action::Walk(WalkAction::new(crate::action::Direction::N, target)),
                ),
                Keypress::NumPad2 | Keypress::Down => Some(
                    Action::Walk(WalkAction::new(crate::action::Direction::S, target)),
                ),
                Keypress::NumPad4 | Keypress::Left => Some(
                    Action::Walk(WalkAction::new(crate::action::Direction::W, target)),
                ),
                Keypress::NumPad6 | Keypress::Right => Some(
                    Action::Walk(WalkAction::new(crate::action::Direction::E, target)),
                ),
                Keypress::NumPad7 => Some(
                    Action::Walk(WalkAction::new(crate::action::Direction::NW, target)),
                ),
                Keypress::NumPad9 => Some(
                    Action::Walk(WalkAction::new(crate::action::Direction::NE, target)),
                ),
                Keypress::NumPad1 => Some(
                    Action::Walk(WalkAction::new(crate::action::Direction::SW, target)),
                ),
                Keypress::NumPad3 => Some(
                    Action::Walk(WalkAction::new(crate::action::Direction::SE, target)),
                ),
                Keypress::Printable(c) => if c == '.' {
                    Some(Action::Wait(WaitAction { target }))
                } else {
                    None
                },
                _ => None,
            },
            None => None,
        }
    }
}

/// The fixed keycode table of the player brain: a directional walk, a
/// wait on '.', and no decision on anything else.
pub open spec fn spec_player_action(input: Option<Keypress>, target: usize) -> Option<Action> {
    match input {
        None => None,
        Some(k) => match k {
            Keypress::NumPad8 | Keypress::Up => Some(
                Action::Walk(
                    WalkAction {
                        direction: crate::action::Direction::N,
                        target,
                        offset: None,
                        point: None,
                    },
                ),
            ),
            Keypress::NumPad2 | Keypress::Down => Some(
                Action::Walk(
                    WalkAction {
                        direction: crate::action::Direction::S,
                        target,
                        offset: None,
                        point: None,
                    },
                ),
            ),
            Keypress::NumPad4 | Keypress::Left => Some(
                Action::Walk(
                    WalkAction {
                        direction: crate::action::Direction::W,
                        target,
                        offset: None,
                        point: None,
                    },
                ),
            ),
            Keypress::NumPad6 | Keypress::Right => Some(
                Action::Walk(
                    WalkAction {
                        direction: crate::action::Direction::E,
                        target,
                        offset: None,
                        point: None,
                    },
                ),
            ),
            Keypress::NumPad7 => Some(
                Action::Walk(
                    WalkAction {
                        direction: crate::action::Direction::NW,
                        target,
                        offset: None,
                        point: None,
                    },
                ),
            ),
            Keypress::NumPad9 => Some(
                Action::Walk(
                    WalkAction {
                        direction: crate::action::Direction::NE,
                        target,
                        offset: None,
                        point: None,
                    },
                ),
            ),
            Keypress::NumPad1 => Some(
                Action::Walk(
                    WalkAction {
                        direction: crate::action::Direction::SW,
                        target,
                        offset: None,
                        point: None,
                    },
                ),
            ),
            Keypress::NumPad3 => Some(
                Action::Walk(
                    WalkAction {
                        direction: crate::action::Direction::SE,
                        target,
                        offset: None,
                        point: None,
                    },
                ),
            ),
            Keypress::Printable(c) => if c == '.' {
                Some(Action::Wait(WaitAction { target }))
            } else {
                None
            },
            _ => None,
        },
    }
}

/// Whether a unit draw passes the wander bound check on one axis: the
/// offset applied to the origin on that axis must stay inside the bound.
pub open spec fn wander_accepts(b: Bound, horizontal: bool, v: int) -> bool {
    if horizontal {
        b.spec_contains(Point { x: v as i32, y: 0 })
    } else {
        b.spec_contains(Point { x: 0, y: v as i32 })
    }
}

/// The offset one wander axis settles on and the draw trace it leaves
/// behind: unit draws are taken from the stream until one passes the
/// bound check, with at most `k` redraws; if every draw fails, the
/// offset falls back to zero.
pub open spec fn wander_axis(seed: u64, t: Seq<Draw>, b: Bound, horizontal: bool, k: nat) -> (
    int,
    Seq<Draw>,
)
    decreases k,
{
    let v = stream_i32(seed, t, -1, 2);
    let t2 = t.push(Draw::RangeI32(-1, 2));
    if wander_accepts(b, horizontal, v) {
        (v, t2)
    } else if k == 0 {
        (0, t2)
    } else {
        wander_axis(seed, t2, b, horizontal, (k - 1) as nat)
    }
}

impl RandomBrainComponent {
    /// Decides a wander move: a signed unit offset per axis, resampled
    /// while it would leave the configured bound (at most 64 redraws,
    /// then zero). The walk is issued without consulting the map;
    /// blocking is discovered when the walk is performed.
    pub fn get_action(&mut self, _entity: &Entity, level: &mut Level, random: &mut Rng) -> (r:
        Option<Action>)
        requires
            self.bounds.spec_contains(Point { x: 0, y: 0 }),
        ensures
            *final(self) == *old(self),
            *final(level) == *old(level),
            final(random).seed() == old(random).seed(),
            ({
                let xa = wander_axis(
                    old(random).seed(),
                    old(random).draws(),
                    old(self).bounds,
                    true,
                    64,
                );
                let ya = wander_axis(old(random).seed(), xa.1, old(self).bounds, false, 64);
                final(random).draws() == ya.1 && r == Some(
                    Action::Walk(
                        WalkAction {
                            direction: crate::action::Direction::NoDir,
                            target: old(level).current_actor,
                            offset: Some(Point { x: xa.0 as i32, y: ya.0 as i32 }),
                            point: None,
                        },
                    ),
                )
            }),
            match r {
                Some(a) => a matches Action::Walk(w) && w.target == old(level).current_actor
                    && w.point is None && (w.offset matches Some(o) && -1 <= o.x <= 1 && -1 <= o.y
                    <= 1 && old(self).bounds.spec_contains(Point { x: o.x, y: 0i32 })
                    && old(self).bounds.spec_contains(Point { x: 0i32, y: o.y })),
                None => false,
            },
    {
        let ghost seed = random.seed();
        let offset = Point { x: 0, y: 0 };

        let ghost xa = wander_axis(seed, random.draws(), self.bounds, true, 64);
        let mut offset_x = random.gen_range_i32(-1, 2);
        let mut kx: u32 = 64;
        while !self.bounds.contains(offset.offset_x(offset_x)) && kx > 0
            invariant
                -1 <= offset_x <= 1,
                offset == (Point { x: 0i32, y: 0i32 }),
                random.seed() == seed,
                0 <= kx <= 64,
                if wander_accepts(self.bounds, true, offset_x as int) {
                    xa == (offset_x as int, random.draws())
                } else if kx > 0 {
                    xa == wander_axis(seed, random.draws(), self.bounds, true, (kx - 1) as nat)
                } else {
                    xa == (0int, random.draws())
                },
            decreases kx,
        {
            offset_x = random.gen_range_i32(-1, 2);
            kx -= 1;
        }
        if !self.bounds.contains(offset.offset_x(offset_x)) {
            offset_x = 0;
        }
        proof {
            assert(xa == (offset_x as int, random.draws()));
        }

        let ghost ya = wander_axis(seed, random.draws(), self.bounds, false, 64);
        let mut offset_y = random.gen_range_i32(-1, 2);
        let mut ky: u32 = 64;
        while !self.bounds.contains(offset.offset_y(offset_y)) && ky > 0
            invariant
                -1 <= offset_y <= 1,
                offset == (Point { x: 0i32, y: 0i32 }),
                random.seed() == seed,
                0 <= ky <= 64,
                if wander_accepts(self.bounds, false, offset_y as int) {
                    ya == (offset_y as int, random.draws())
                } else if ky > 0 {
                    ya == wander_axis(seed, random.draws(), self.bounds, false, (ky - 1) as nat)
                } else {
                    ya == (0int, random.draws())
                },
            decreases ky,
        {
            offset_y = random.gen_range_i32(-1, 2);
            ky -= 1;
        }
        if !self.bounds.contains(offset.offset_y(offset_y)) {
            offset_y = 0;
        }
        proof {
            assert(ya == (offset_y as int, random.draws()));
        }

        Some(
            Action::Walk(
                WalkAction::from_offset(
                    Point { x: offset_x, y: offset_y },
                    level.current_actor,
                ),
            ),
        )
    }
}

impl NoBrainComponent {
    /// Decides nothing at all: the entity waits.
    pub fn get_action(&mut self, _entity: &Entity, level: &mut Level) -> (r: Option<Action>)
        ensures
            *final(self) == *old(self),
            *final(level) == *old(level),
            r == Some(Action::Wait(WaitAction { target: old(level).current_actor })),
    {
        Some(Action::Wait(WaitAction { target: level.current_actor }))
    }
}

/// With a single-point wander bound at the origin, the per-axis bound
/// checks admit only the zero offset: such a wanderer can never request
/// a walk that would leave its tile.
pub proof fn lemma_single_point_bound_pins_offset(b: Bound, o: Point)
    requires
        b.min == (Point { x: 0, y: 0 }),
        b.max == (Point { x: 0, y: 0 }),
        b.spec_contains(Point { x: o.x, y: 0 }),
        b.spec_contains(Point { x: 0, y: o.y }),
    ensures
        o == (Point { x: 0, y: 0 }),
{
}

/// What the dispatched brain's own contract promises, lifted to the
/// deciding entity: the decision, the new brain state, the level and the
/// stream consumption, case by case over the brain kind.
pub open spec fn dispatch_ok(
    brain_old: Brain,
    brain_new: Brain,
    r: Option<Action>,
    lvl_old: Level,
    lvl_new: Level,
    pos: Point,
    seed: u64,
    draws_old: Seq<Draw>,
    draws_new: Seq<Draw>,
) -> bool {
    match brain_old {
        Brain::Player(_) => {
            &&& brain_new == brain_old
            &&& lvl_new == lvl_old
            &&& draws_new == draws_old
            &&& r == spec_player_action(lvl_old.input, lvl_old.current_actor)
        },
        Brain::Idle(_) => {
            &&& brain_new == brain_old
            &&& lvl_new == lvl_old
            &&& draws_new == draws_old
            &&& r == Some(Action::Wait(WaitAction { target: lvl_old.current_actor }))
        },
        Brain::Random(rb) => {
            &&& brain_new == brain_old
            &&& lvl_new == lvl_old
            &&& ({
                let xa = wander_axis(seed, draws_old, rb.bounds, true, 64);
                let ya = wander_axis(seed, xa.1, rb.bounds, false, 64);
                draws_new == ya.1 && r == Some(
                    Action::Walk(
                        WalkAction {
                            direction: crate::action::Direction::NoDir,
                            target: lvl_old.current_actor,
                            offset: Some(Point { x: xa.0 as i32, y: ya.0 as i32 }),
                            point: None,
                        },
                    ),
                )
            })
        },
        Brain::Aggro(ab) => {
            &&& draws_new == draws_old
            &&& (brain_new matches Brain::Aggro(ab2) && aggro_decision_ok(
                ab,
                ab2,
                r,
                lvl_old,
                lvl_new,
                pos,
            ))
        },
    }
}

/// A brain is sound for a map when everything it has cached stays
/// strictly inside the map's walled border, and a wander bound admits
/// the zero offset.
pub open spec fn brain_wf(b: Brain, m: DungeonMapComponent) -> bool {
    match b {
        Brain::Aggro(a) => forall|i: int|
            0 <= i < a.path@.len() ==> interior(m, #[trigger] a.path@[i]),
        Brain::Random(r) => r.bounds.spec_contains(Point { x: 0, y: 0 }),
        _ => true,
    }
}

/// What a decision may change of the level: nothing but the tiles'
/// debug highlight colours.
pub open spec fn level_preserved_by_decision(a: Level, b: Level) -> bool {
    &&& b.entities@ == a.entities@
    &&& b.current_actor == a.current_actor
    &&& b.input == a.input
    &&& b.items == a.items
    &&& crate::map::map_same_but_color(a.map_component, b.map_component)
}

/// What every decided action looks like: it targets the current actor,
/// and any walk it requests either jumps to a point strictly inside the
/// map or moves by at most one tile. Only a player brain may decide
/// nothing.
pub open spec fn decided_action_ok(r: Option<Action>, lvl: Level, brain_old: Brain) -> bool {
    match r {
        None => brain_old is Player,
        Some(a) => match a {
            Action::Wait(ww) => ww.target == lvl.current_actor,
            Action::Walk(w) => {
                &&& w.target == lvl.current_actor
                &&& match w.point {
                    Some(p) => interior(lvl.map_component, p) && w.offset is None,
                    None => match w.offset {
                        Some(o) => -1 <= o.x <= 1 && -1 <= o.y <= 1,
                        None => true,
                    },
                }
            },
        },
    }
}

} // verus!
