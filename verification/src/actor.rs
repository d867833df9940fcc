//! Entities: the uniform representation of the player and mobs.

use vstd::prelude::*;

use crate::action::Action;
use crate::brain::{AggroBrainComponent, Brain, NoBrainComponent, PlayerBrainComponent};
use crate::level::Level;
use crate::rng::Rng;
use crate::item::Item;
use crate::util::Point;

verus! {

/// The queries every living thing on a level answers.
pub trait Actor: Sized {
    /// Where the actor stands.
    spec fn spec_position(&self) -> Point;

    /// Where the actor stood before its last move.
    spec fn spec_last_position(&self) -> Point;

    /// The actor's health.
    spec fn spec_health(&self) -> i32;

    /// The character the actor renders as.
    spec fn spec_display_char(&self) -> char;

    /// The same actor standing at `pos`, remembering `last`: every
    /// other part of it unchanged.
    spec fn spec_moved_to(&self, pos: Point, last: Point) -> Self;

    /// Moves the actor, remembering where it stood; nothing else about
    /// the actor changes.
    fn set_position(&mut self, new_pos: Point)
        ensures
            final(self).spec_position() == new_pos,
            final(self).spec_last_position() == old(self).spec_position(),
            *final(self) == old(self).spec_moved_to(new_pos, old(self).spec_position()),
    ;

    /// Where the actor stood before its last move.
    fn get_last_position(&self) -> (p: Point)
        ensures
            p == self.spec_last_position(),
    ;

    /// Where the actor stands.
    fn get_position(&self) -> (p: Point)
        ensures
            p == self.spec_position(),
    ;

    /// The actor's health.
    fn get_health(&self) -> (h: i32)
        ensures
            h == self.spec_health(),
    ;

    /// The character the actor renders as.
    fn get_display_char(&self) -> (c: char)
        ensures
            c == self.spec_display_char(),
    ;
}

/// Struct representing both passive and aggressive mobs.
pub struct Entity {
    /// The current position of the `Entity`.
    pub position: Point,
    /// The last position of the `Entity`.
    pub last_position: Point,
    /// The health of the `Entity`.
    pub health: i32,
    /// The character to render the `Entity` as.
    pub display_char: char,
    /// The decision strategy dictating the way the `Entity` acts.
    pub brain_component: Brain,
    /// Whether the mob is aggressive towards the player.
    pub is_hostile: bool,
    /// Whether this entity is the player.
    pub player: bool,
    /// What the entity carries.
    pub inventory: Vec<Item>,
    /// The index into the inventory of the wielded item, if any.
    pub wielded: Option<usize>,
}

impl Actor for Entity {
    open spec fn spec_position(&self) -> Point {
        self.position
    }

    open spec fn spec_last_position(&self) -> Point {
        self.last_position
    }

    open spec fn spec_health(&self) -> i32 {
        self.health
    }

    open spec fn spec_display_char(&self) -> char {
        self.display_char
    }

    open spec fn spec_moved_to(&self, pos: Point, last: Point) -> Entity {
        Entity { position: pos, last_position: last, ..*self }
    }

    fn set_position(&mut self, new_pos: Point) {
        self.last_position = self.position;
        self.position = new_pos;
    }

    fn get_last_position(&self) -> (p: Point) {
        self.last_position
    }

    fn get_position(&self) -> (p: Point) {
        self.position
    }

    fn get_health(&self) -> (h: i32) {
        self.health
    }

    fn get_display_char(&self) -> (c: char) {
        self.display_char
    }
}

impl Entity {
    /// Creates a new actor, with all fields given as parameters.
    pub fn new(x: i32, y: i32, health: i32, dc: char, bc: Brain, is_hostile: bool) -> (e: Entity)
        ensures
            e.position == (Point { x: x, y: y }),
            e.last_position == (Point { x: -1i32, y: -1i32 }),
            e.health == health,
            e.display_char == dc,
            e.brain_component == bc,
            e.is_hostile == is_hostile,
            e.player == false,
            e.inventory@.len() == 0,
            e.wielded is None,
    {
        Entity {
            health,
            is_hostile,
            position: Point { x, y },
            last_position: Point { x: -1, y: -1 },
            display_char: dc,
            brain_component: bc,
            inventory: Vec::new(),
            wielded: None,
            player: false,
        }
    }

    /// Returns the `Entity`'s health.
    pub fn get_health(&self) -> (h: i32)
        ensures
            h == self.health,
    {
        self.health
    }

    /// Creates an `Entity` with the traits of a kobold: a hostile mob
    /// that pursues the player.
    pub fn kobold(x: i32, y: i32) -> (e: Entity)
        ensures
            e.position == (Point { x: x, y: y }),
            e.last_position == (Point { x: -1i32, y: -1i32 }),
            e.health == 12,
            e.display_char == 'k',
            e.brain_component matches Brain::Aggro(a) && a.path@.len() == 0,
            e.is_hostile == true,
            e.player == false,
            e.inventory@.len() == 0,
            e.wielded is None,
    {
        let mc = Brain::Aggro(AggroBrainComponent::new());
        Entity::new(x, y, 12, 'k', mc, true)
    }

    /// The function called on every tick of the game loop: asks this
    /// entity's brain for its next action.
    ///
    /// The brain is temporarily swapped out of the entity so that it can
    /// decide against the level without aliasing its own entity.
    pub fn get_action(&mut self, level: &mut Level, random: &mut Rng) -> (r: Option<Action>)
        requires
            old(level).map_component.wf(),
            crate::brain::brain_wf(old(self).brain_component, old(level).map_component),
            crate::ai::interior(old(level).map_component, old(self).position),
            old(self).brain_component is Aggro ==> old(level).entities@.len() >= 1
                && crate::ai::interior(
                old(level).map_component,
                old(level).entities@[0].position,
            ),
        ensures
            final(self).position == old(self).position,
            final(self).last_position == old(self).last_position,
            final(self).health == old(self).health,
            final(self).display_char == old(self).display_char,
            final(self).is_hostile == old(self).is_hostile,
            final(self).player == old(self).player,
            final(self).inventory == old(self).inventory,
            final(self).wielded == old(self).wielded,
            old(self).brain_component is Player ==> final(self).brain_component is Player,
            old(self).brain_component is Aggro ==> final(self).brain_component is Aggro,
            old(self).brain_component is Random ==> final(self).brain_component is Random,
            old(self).brain_component is Idle ==> final(self).brain_component is Idle,
            crate::brain::brain_wf(final(self).brain_component, final(level).map_component),
            crate::brain::level_preserved_by_decision(*old(level), *final(level)),
            final(level).map_component.wf(),
            crate::brain::decided_action_ok(r, *old(level), old(self).brain_component),
            final(random).seed() == old(random).seed(),
            crate::brain::dispatch_ok(
                old(self).brain_component,
                final(self).brain_component,
                r,
                *old(level),
                *final(level),
                old(self).position,
                old(random).seed(),
                old(random).draws(),
                final(random).draws(),
            ),
    {
        let mut brain = Brain::Idle(NoBrainComponent);
        core::mem::swap(&mut brain, &mut self.brain_component);
        let action = match &mut brain {
            Brain::Player(b) => b.get_action(&*self, level),
            Brain::Aggro(b) => b.get_action(&*self, level),
            Brain::Random(b) => b.get_action(&*self, level, random),
            Brain::Idle(b) => b.get_action(&*self, level),
        };
        self.brain_component = brain;
        action
    }

    /// Creates the player entity at the given starting position.
    pub fn player(start_pos: Point) -> (e: Entity)
        ensures
            e.position == start_pos,
            e.last_position == (Point { x: -1i32, y: -1i32 }),
            e.health == 15,
            e.display_char == '@',
            e.brain_component is Player,
            e.is_hostile == false,
            e.player == true,
            e.inventory@.len() == 0,
            e.wielded is None,
    {
        Entity {
            position: start_pos,
            is_hostile: false,
            last_position: Point { x: -1, y: -1 },
            health: 15,
            display_char: '@',
            inventory: Vec::new(),
            wielded: None,
            brain_component: Brain::Player(PlayerBrainComponent::new()),
            player: true,
        }
    }
}

} // verus!
