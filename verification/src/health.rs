//! Health points of a game object, the damage dealt to it, and what
//! follows from running out of health.

use bevy::ecs::entity::Entity;
use vstd::prelude::*;

verus! {

/// The health left of `current` after `amount` of damage: their
/// difference, or zero where the damage is the larger.
pub open spec fn after_damage(current: u32, amount: u32) -> int {
    if amount >= current {
        0
    } else {
        current - amount
    }
}

/// The health that `current` becomes by healing `amount`: the sum, but no
/// more than `max`.
pub open spec fn after_healing(current: u32, max: u32, amount: u32) -> int {
    if current + amount > max {
        max as int
    } else {
        current + amount
    }
}

/// Current and maximal health points of one game object.
///
/// The two numbers are independent when the value is made; healing never
/// leaves `current` above `max`.
#[derive(Clone, Copy, Debug, PartialEq, Eq, Structural)]
pub struct Health {
    current: u32,
    max: u32,
}

impl Health {
    /// The health points left.
    pub closed spec fn spec_current(&self) -> u32 {
        self.current
    }

    /// The limit that healing respects.
    pub closed spec fn spec_max(&self) -> u32 {
        self.max
    }

    /// Health of `current` points, which healing can raise up to `max`.
    pub fn new(current: u32, max: u32) -> (health: Self)
        ensures
            health.current() == current,
            health.max() == max,
    {
        Self { current, max }
    }

    /// The health points left.
    #[verifier::when_used_as_spec(spec_current)]
    pub fn current(&self) -> (points: u32)
        ensures
            points == self.current(),
    {
        self.current
    }

    /// The limit that healing respects.
    #[verifier::when_used_as_spec(spec_max)]
    pub fn max(&self) -> (points: u32)
        ensures
            points == self.max(),
    {
        self.max
    }

    /// Takes `amount` of damage and returns the health left: the health
    /// minus the damage, and zero where the damage is the larger.
    pub fn subtract(&mut self, amount: u32) -> (left: u32)
        ensures
            final(self).current() == after_damage(old(self).current(), amount),
            final(self).max() == old(self).max(),
            left == final(self).current(),
    {
        if amount >= self.current {
            self.current = 0;
        } else {
            self.current = self.current - amount;
        }
        self.current
    }

    /// Heals by `amount` and returns the health left: the health plus the
    /// amount, and the maximum where the sum is larger than that.
    pub fn add(&mut self, amount: u32) -> (left: u32)
        ensures
            final(self).current() == after_healing(old(self).current(), old(self).max(), amount),
            final(self).current() <= final(self).max(),
            final(self).max() == old(self).max(),
            left == final(self).current(),
    {
        if self.current > self.max || amount > self.max - self.current {
            self.current = self.max;
        } else {
            self.current = self.current + amount;
        }
        self.current
    }
}

/// Two hits in a row hurt as much as one hit of their sum.
pub proof fn lemma_damage_accumulates(current: u32, first: u32, second: u32)
    ensures
        after_damage(after_damage(current, first) as u32, second) == if first + second >= current {
            0
        } else {
            current - (first + second)
        },
        first + second <= u32::MAX ==> after_damage(after_damage(current, first) as u32, second)
            == after_damage(current, (first + second) as u32),
{
}

/// Damage never raises health, so health within its maximum stays within
/// it; and damage as large as the health leaves none.
pub proof fn lemma_damage_never_heals(current: u32, amount: u32)
    ensures
        0 <= after_damage(current, amount) <= current,
        after_damage(current, amount) == 0 <==> amount >= current,
{
}

/// Healing never lowers health that is within its maximum, and damage
/// takes back what healing gave: health that is healed and then hit by the
/// same amount is no higher than before.
pub proof fn lemma_healing_then_damage(current: u32, max: u32, amount: u32)
    ensures
        after_healing(current, max, amount) <= max,
        current <= max ==> current <= after_healing(current, max, amount),
        current <= max ==> after_damage(after_healing(current, max, amount) as u32, amount)
            <= current,
{
}

/// A request to take `damage` health points from `entity`.
#[derive(Clone, Copy, Debug, PartialEq, Eq)]
pub struct DamageEvent {
    damage: u32,
    entity: Entity,
}

impl DamageEvent {
    /// The health points to take.
    pub closed spec fn spec_damage(&self) -> u32 {
        self.damage
    }

    /// The game object that is hit.
    pub closed spec fn spec_entity(&self) -> Entity {
        self.entity
    }

    /// A request to take `damage` health points from `entity`.
    pub fn new(damage: u32, entity: Entity) -> (event: Self)
        ensures
            event.damage() == damage,
            event.entity() == entity,
    {
        Self { damage, entity }
    }

    /// The health points to take.
    #[verifier::when_used_as_spec(spec_damage)]
    pub fn damage(&self) -> (points: u32)
        ensures
            points == self.damage(),
    {
        self.damage
    }

    /// The game object that is hit.
    #[verifier::when_used_as_spec(spec_entity)]
    pub fn entity(&self) -> (target: Entity)
        ensures
            target == self.entity(),
    {
        self.entity
    }
}

/// The entity of an entry that has no health left.
pub open spec fn depleted(entry: (Entity, Health)) -> Option<Entity> {
    if entry.1.current() == 0 {
        Some(entry.0)
    } else {
        None
    }
}

/// The entities that have no health left, in the order of `healths`.
pub open spec fn dead_entities(healths: Seq<(Entity, Health)>) -> Seq<Entity> {
    healths.filter_map(|entry: (Entity, Health)| depleted(entry))
}

/// Picks the entities to remove from the game: those whose health is zero.
pub fn kill(healths: &Vec<(Entity, Health)>) -> (dead: Vec<Entity>)
    ensures
        dead@ == dead_entities(healths@),
{
    let mut dead: Vec<Entity> = Vec::new();
    let mut i: usize = 0;
    while i < healths.len()
        invariant
            i <= healths.len(),
            dead@ == dead_entities(healths@.take(i as int)),
        decreases healths.len() - i,
    {
        proof {
            healths@.lemma_filter_map_take_succ(|entry: (Entity, Health)| depleted(entry), i as int);
        }
        if healths[i].1.current() == 0 {
            dead.push(healths[i].0);
        }
        i += 1;
    }
    assert(healths@.take(healths.len() as int) == healths@);
    dead
}

/// An entity is picked exactly if some entry gives it a health of zero.
pub proof fn lemma_dead_entities(healths: Seq<(Entity, Health)>, entity: Entity)
    ensures
        dead_entities(healths).contains(entity) <==> exists|i: int|
            0 <= i < healths.len() && (#[trigger] healths[i]).0 == entity && healths[i].1.current()
                == 0,
    decreases healths.len(),
{
    if healths.len() > 0 {
        let earlier = healths.drop_last();
        let dead = dead_entities(healths);
        let dead_earlier = dead_entities(earlier);
        lemma_dead_entities(earlier, entity);
        if dead_earlier.contains(entity) {
            let k = choose|k: int| 0 <= k < dead_earlier.len() && dead_earlier[k] == entity;
            assert(dead[k] == entity);
            let i = choose|i: int|
                0 <= i < earlier.len() && (#[trigger] earlier[i]).0 == entity
                    && earlier[i].1.current() == 0;
            assert(healths[i].0 == entity);
        }
        if healths.last().0 == entity && healths.last().1.current() == 0 {
            assert(dead[dead.len() - 1] == entity);
            assert(healths[healths.len() - 1].0 == entity);
        }
        if dead.contains(entity) {
            let k = choose|k: int| 0 <= k < dead.len() && dead[k] == entity;
            if k < dead_earlier.len() {
                assert(dead_earlier[k] == entity);
            }
        }
        if exists|i: int|
            0 <= i < healths.len() && (#[trigger] healths[i]).0 == entity && healths[i].1.current()
                == 0 {
            let i = choose|i: int|
                0 <= i < healths.len() && (#[trigger] healths[i]).0 == entity
                    && healths[i].1.current() == 0;
            if i < earlier.len() {
                assert(earlier[i].0 == entity);
            }
        }
    }
}

/// Counts the entries, from the front, that get a health bar: the bars are
/// drawn in order and drawing stops at the first entity without health.
pub fn health_bars_to_draw(healths: &Vec<(Entity, Health)>) -> (shown: usize)
    ensures
        shown <= healths.len(),
        forall|i: int| 0 <= i < shown ==> healths[i].1.current() > 0,
        shown < healths.len() ==> healths[shown as int].1.current() == 0,
{
    let mut shown: usize = 0;
    while shown < healths.len() && healths[shown].1.current() != 0
        invariant
            shown <= healths.len(),
            forall|i: int| 0 <= i < shown ==> healths[i].1.current() > 0,
        decreases healths.len() - shown,
    {
        shown += 1;
    }
    shown
}

} // verus!
