//! Collisions between game objects: which pairs are ignored, and what
//! damage the others take.

use crate::engine::{collision_pairs, remove_collision_pair, without_pair};
use crate::health::DamageEvent;
use bevy::ecs::entity::Entity;
use bevy_xpbd_2d::plugins::collision::Collisions;
use vstd::prelude::*;

verus! {

/// The collision group of the player's ship and of what it shoots.
pub const PLAYER_COLLISION_GROUP: u8 = 0;

/// The health points that each side of a collision loses.
pub const COLLISION_DAMAGE: u32 = 20;

/// Objects of one collision group pass through each other.
#[derive(Clone, Copy, Debug, PartialEq, Eq, Structural)]
pub struct CollisionGroup(pub u8);

/// The pairs that entry `i` forms with the later entries before `upto` that
/// are in its group, in the order of those entries.
pub open spec fn partners(groups: Seq<(Entity, CollisionGroup)>, i: int, upto: int) -> Seq<
    (Entity, Entity),
>
    recommends
        0 <= i < groups.len(),
        upto <= groups.len(),
    decreases upto - i,
{
    if upto <= i + 1 {
        Seq::empty()
    } else if groups[i].1 == groups[upto - 1].1 {
        partners(groups, i, upto - 1).push((groups[i].0, groups[upto - 1].0))
    } else {
        partners(groups, i, upto - 1)
    }
}

/// The pairs of entries in one group whose first entry comes before `upto`,
/// ordered by the first entry and then by the second.
pub open spec fn pairs_before(groups: Seq<(Entity, CollisionGroup)>, upto: int) -> Seq<
    (Entity, Entity),
>
    recommends
        upto <= groups.len(),
    decreases upto,
{
    if upto <= 0 {
        Seq::empty()
    } else {
        pairs_before(groups, upto - 1) + partners(groups, upto - 1, groups.len() as int)
    }
}

/// All pairs of entries that are in one group, each pair once, the earlier
/// entry first.
pub open spec fn same_group_pairs(groups: Seq<(Entity, CollisionGroup)>) -> Seq<(Entity, Entity)> {
    pairs_before(groups, groups.len() as int)
}

/// What is left of `pairs` when the collisions of `ignored` are dropped
/// from it one after the other.
pub open spec fn without_pairs(pairs: Set<(Entity, Entity)>, ignored: Seq<(Entity, Entity)>) -> Set<
    (Entity, Entity),
>
    decreases ignored.len(),
{
    if ignored.len() == 0 {
        pairs
    } else {
        without_pair(without_pairs(pairs, ignored.drop_last()), ignored.last())
    }
}

/// Lists the pairs of entities that pass through each other: every two
/// entries of the same collision group, the earlier entry first.
pub fn same_group_collisions(groups: &Vec<(Entity, CollisionGroup)>) -> (ignored: Vec<
    (Entity, Entity),
>)
    ensures
        ignored@ == same_group_pairs(groups@),
{
    let mut ignored: Vec<(Entity, Entity)> = Vec::new();
    let mut i: usize = 0;
    while i < groups.len()
        invariant
            i <= groups.len(),
            ignored@ == pairs_before(groups@, i as int),
        decreases groups.len() - i,
    {
        let mut j: usize = i + 1;
        while j < groups.len()
            invariant
                i < groups.len(),
                i + 1 <= j <= groups.len(),
                ignored@ == pairs_before(groups@, i as int) + partners(groups@, i as int, j as int),
            decreases groups.len() - j,
        {
            if groups[i].1 == groups[j].1 {
                ignored.push((groups[i].0, groups[j].0));
            }
            j += 1;
        }
        i += 1;
    }
    ignored
}

/// Drops from `collisions` the collision of every two entities that are in
/// the same collision group, so that the two pass through each other.
pub fn ignore_collisions(collisions: &mut Collisions, groups: &Vec<(Entity, CollisionGroup)>)
    ensures
        collision_pairs(*final(collisions)) == without_pairs(
            collision_pairs(*old(collisions)),
            same_group_pairs(groups@),
        ),
{
    let ignored = same_group_collisions(groups);
    let ghost before = collision_pairs(*collisions);
    let mut k: usize = 0;
    while k < ignored.len()
        invariant
            k <= ignored.len(),
            collision_pairs(*collisions) == without_pairs(before, ignored@.take(k as int)),
        decreases ignored.len() - k,
    {
        assert(ignored@.take(k + 1).drop_last() == ignored@.take(k as int));
        remove_collision_pair(collisions, ignored[k].0, ignored[k].1);
        k += 1;
    }
    assert(ignored@.take(ignored.len() as int) == ignored@);
}

/// Whether `pair` is made of entry `i` and a later entry before `upto` that
/// is in the same group.
pub open spec fn is_partner_pair(
    groups: Seq<(Entity, CollisionGroup)>,
    i: int,
    upto: int,
    pair: (Entity, Entity),
) -> bool {
    exists|j: int|
        i < j < upto && groups[i].1 == (#[trigger] groups[j]).1 && pair == (groups[i].0, groups[j].0)
}

/// Whether `pair` is made of two entries of one group, the first of them
/// before `upto` and the second later than the first.
pub open spec fn is_same_group_pair(
    groups: Seq<(Entity, CollisionGroup)>,
    upto: int,
    pair: (Entity, Entity),
) -> bool {
    exists|i: int, j: int|
        #![trigger groups[i], groups[j]]
        0 <= i < upto && i < j < groups.len() && groups[i].1 == groups[j].1 && pair == (
            groups[i].0,
            groups[j].0,
        )
}

proof fn lemma_partners_contains(
    groups: Seq<(Entity, CollisionGroup)>,
    i: int,
    upto: int,
    pair: (Entity, Entity),
)
    requires
        0 <= i < groups.len(),
        upto <= groups.len(),
    ensures
        partners(groups, i, upto).contains(pair) <==> is_partner_pair(groups, i, upto, pair),
    decreases upto - i,
{
    if upto > i + 1 {
        let earlier = partners(groups, i, upto - 1);
        let newest = (groups[i].0, groups[upto - 1].0);
        lemma_partners_contains(groups, i, upto - 1, pair);
        if groups[i].1 == groups[upto - 1].1 {
            let all = earlier.push(newest);
            if earlier.contains(pair) {
                let k = choose|k: int| 0 <= k < earlier.len() && earlier[k] == pair;
                assert(all[k] == pair);
            }
            if newest == pair {
                assert(all[earlier.len() as int] == pair);
            }
            if all.contains(pair) {
                let k = choose|k: int| 0 <= k < all.len() && all[k] == pair;
                if k < earlier.len() {
                    assert(earlier[k] == pair);
                }
            }
            assert(all.contains(pair) <==> earlier.contains(pair) || newest == pair);
        }
        if is_partner_pair(groups, i, upto, pair) {
            let j = choose|j: int|
                i < j < upto && groups[i].1 == (#[trigger] groups[j]).1 && pair == (
                    groups[i].0,
                    groups[j].0,
                );
            if j < upto - 1 {
                assert(is_partner_pair(groups, i, upto - 1, pair));
            }
        }
    }
}

proof fn lemma_pairs_before_contains(
    groups: Seq<(Entity, CollisionGroup)>,
    upto: int,
    pair: (Entity, Entity),
)
    requires
        upto <= groups.len(),
    ensures
        pairs_before(groups, upto).contains(pair) <==> is_same_group_pair(groups, upto, pair),
    decreases upto,
{
    if upto > 0 {
        let earlier = pairs_before(groups, upto - 1);
        let newest = partners(groups, upto - 1, groups.len() as int);
        let all = earlier + newest;
        lemma_pairs_before_contains(groups, upto - 1, pair);
        lemma_partners_contains(groups, upto - 1, groups.len() as int, pair);
        if earlier.contains(pair) {
            let k = choose|k: int| 0 <= k < earlier.len() && earlier[k] == pair;
            assert(all[k] == pair);
        }
        if newest.contains(pair) {
            let k = choose|k: int| 0 <= k < newest.len() && newest[k] == pair;
            assert(all[earlier.len() + k] == pair);
        }
        if all.contains(pair) {
            let k = choose|k: int| 0 <= k < all.len() && all[k] == pair;
            if k < earlier.len() {
                assert(earlier[k] == pair);
            } else {
                assert(newest[k - earlier.len()] == pair);
            }
        }
        assert(all.contains(pair) <==> earlier.contains(pair) || newest.contains(pair));
        if is_same_group_pair(groups, upto, pair) {
            let (i, j) = choose|i: int, j: int|
                #![trigger groups[i], groups[j]]
                0 <= i < upto && i < j < groups.len() && groups[i].1 == groups[j].1 && pair == (
                    groups[i].0,
                    groups[j].0,
                );
            if i < upto - 1 {
                assert(is_same_group_pair(groups, upto - 1, pair));
            } else {
                assert(is_partner_pair(groups, upto - 1, groups.len() as int, pair));
            }
        }
        if is_partner_pair(groups, upto - 1, groups.len() as int, pair) {
            let j = choose|j: int|
                upto - 1 < j < groups.len() && groups[upto - 1].1 == (#[trigger] groups[j]).1
                    && pair == (groups[upto - 1].0, groups[j].0);
            assert(groups[upto - 1].1 == groups[j].1);
        }
    }
}

/// A pair of entities is ignored exactly if the two stand at different
/// places of `groups`, the first of them earlier, with the same group.
pub proof fn lemma_same_group_pairs(groups: Seq<(Entity, CollisionGroup)>, pair: (Entity, Entity))
    ensures
        same_group_pairs(groups).contains(pair) <==> is_same_group_pair(
            groups,
            groups.len() as int,
            pair,
        ),
{
    lemma_pairs_before_contains(groups, groups.len() as int, pair);
}

/// Dropping collisions only ever takes entries away; it takes away every
/// pair that is named, and the pair turned round where the table did not
/// hold the pair as named; and it leaves every entry that is named in
/// neither order.
pub proof fn lemma_without_pairs(
    pairs: Set<(Entity, Entity)>,
    ignored: Seq<(Entity, Entity)>,
    pair: (Entity, Entity),
)
    ensures
        without_pairs(pairs, ignored).contains(pair) ==> pairs.contains(pair),
        ignored.contains(pair) ==> !without_pairs(pairs, ignored).contains(pair),
        ignored.contains(pair) && !pairs.contains(pair) ==> !without_pairs(pairs, ignored).contains(
            (pair.1, pair.0),
        ),
        pairs.contains(pair) && !ignored.contains(pair) && !ignored.contains((pair.1, pair.0))
            ==> without_pairs(pairs, ignored).contains(pair),
    decreases ignored.len(),
{
    if ignored.len() > 0 {
        let earlier = ignored.drop_last();
        let turned = (pair.1, pair.0);
        lemma_without_pairs(pairs, earlier, pair);
        lemma_without_pairs(pairs, earlier, turned);
        lemma_without_pairs(pairs, earlier, ignored.last());
        if ignored.contains(pair) && ignored.last() != pair {
            let k = choose|k: int| 0 <= k < ignored.len() && ignored[k] == pair;
            assert(earlier[k] == pair);
        }
        if earlier.contains(pair) {
            let k = choose|k: int| 0 <= k < earlier.len() && earlier[k] == pair;
            assert(ignored[k] == pair);
        }
        if earlier.contains(turned) {
            let k = choose|k: int| 0 <= k < earlier.len() && earlier[k] == turned;
            assert(ignored[k] == turned);
        }
        assert(ignored[ignored.len() - 1] == ignored.last());
    }
}

/// Once the collisions within the groups are dropped, the table has no
/// entry for two entities of one group in the order of `groups`; and none
/// in the other order either, where it had none in the order of `groups`.
pub proof fn lemma_same_group_never_collides(
    pairs: Set<(Entity, Entity)>,
    groups: Seq<(Entity, CollisionGroup)>,
    i: int,
    j: int,
)
    requires
        0 <= i < j < groups.len(),
        groups[i].1 == groups[j].1,
    ensures
        !without_pairs(pairs, same_group_pairs(groups)).contains((groups[i].0, groups[j].0)),
        !pairs.contains((groups[i].0, groups[j].0)) ==> !without_pairs(
            pairs,
            same_group_pairs(groups),
        ).contains((groups[j].0, groups[i].0)),
{
    let pair = (groups[i].0, groups[j].0);
    lemma_same_group_pairs(groups, pair);
    assert(is_same_group_pair(groups, groups.len() as int, pair));
    lemma_without_pairs(pairs, same_group_pairs(groups), pair);
}

/// An entry for two entities that do not stand in `groups` with one group,
/// in either order, stays in the table.
pub proof fn lemma_other_collisions_stay(
    pairs: Set<(Entity, Entity)>,
    groups: Seq<(Entity, CollisionGroup)>,
    pair: (Entity, Entity),
)
    requires
        pairs.contains(pair),
        !is_same_group_pair(groups, groups.len() as int, pair),
        !is_same_group_pair(groups, groups.len() as int, (pair.1, pair.0)),
    ensures
        without_pairs(pairs, same_group_pairs(groups)).contains(pair),
{
    lemma_same_group_pairs(groups, pair);
    lemma_same_group_pairs(groups, (pair.1, pair.0));
    lemma_without_pairs(pairs, same_group_pairs(groups), pair);
}

/// The entity that the damage event at position `k` is for: the collisions
/// in order, the first entity of each before the second.
pub open spec fn damaged_entity(contacts: Seq<(Entity, Entity)>, k: int) -> Entity {
    if k % 2 == 0 {
        contacts[k / 2].0
    } else {
        contacts[k / 2].1
    }
}

/// Turns collisions into damage: both entities of each collision lose
/// `COLLISION_DAMAGE` health points.
pub fn collide_damage(contacts: &Vec<(Entity, Entity)>) -> (events: Vec<DamageEvent>)
    ensures
        events.len() == 2 * contacts.len(),
        forall|k: int|
            #![trigger events[k]]
            0 <= k < events.len() ==> events[k].damage() == COLLISION_DAMAGE && events[k].entity()
                == damaged_entity(contacts@, k),
{
    let mut events: Vec<DamageEvent> = Vec::new();
    let mut i: usize = 0;
    while i < contacts.len()
        invariant
            i <= contacts.len(),
            events.len() == 2 * i,
            forall|k: int|
                #![trigger events[k]]
                0 <= k < events.len() ==> events[k].damage() == COLLISION_DAMAGE
                    && events[k].entity() == damaged_entity(contacts@, k),
        decreases contacts.len() - i,
    {
        events.push(DamageEvent::new(COLLISION_DAMAGE, contacts[i].0));
        events.push(DamageEvent::new(COLLISION_DAMAGE, contacts[i].1));
        i += 1;
    }
    events
}

} // verus!
