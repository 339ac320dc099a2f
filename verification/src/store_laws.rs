//! Laws of the component store: what is set is read back, and nothing else changes.
use vstd::prelude::*;

use crate::store;
use crate::store::{Entity, StoreView};

verus! {

/// At most one component per entity.
pub open spec fn one_each<T>(lane: Seq<(Entity, T)>) -> bool {
    forall|i: int, j: int|
        0 <= i < j < lane.len() ==> (#[trigger] lane[i]).0 != (#[trigger] lane[j]).0
}

/// The lane has the pair of the entity and the value.
pub open spec fn pairs<T>(lane: Seq<(Entity, T)>, entity: Entity, value: T) -> bool {
    exists|k: int| 0 <= k < lane.len() && #[trigger] lane[k] == (entity, value)
}

/// A component is read from the entity's own pair, and only where there is one.
pub proof fn components_are_read_from_their_entity<T>(lane: Seq<(Entity, T)>, entity: Entity)
    ensures
        store::holds(lane, entity) <==> exists|k: int|
            0 <= k < lane.len() && (#[trigger] lane[k]).0 == entity,
        store::holds(lane, entity) ==> pairs(lane, entity, store::component(lane, entity)),
{
    store::lemma_found(lane, entity);
    if store::holds(lane, entity) {
        assert(lane[store::position(lane, entity)] == (entity, store::component(lane, entity)));
    } else if exists|k: int| 0 <= k < lane.len() && (#[trigger] lane[k]).0 == entity {
        let k = choose|k: int| 0 <= k < lane.len() && (#[trigger] lane[k]).0 == entity;
        assert(lane[k].0 != entity);
    }
}

/// A component that is set is read back, replaces an earlier one of the same entity in its place, and
/// leaves those of all other entities where they are. No entity has two.
pub proof fn a_set_component_is_read_back<T>(
    lane: Seq<(Entity, T)>,
    entity: Entity,
    value: T,
    j: int,
)
    requires
        one_each(lane),
    ensures
        ({
            let after = store::with_component(lane, entity, value);
            &&& one_each(after)
            &&& store::holds(after, entity)
            &&& store::component(after, entity) == value
            &&& after.len() == lane.len() + if store::holds(lane, entity) {
                0int
            } else {
                1
            }
            &&& 0 <= j < lane.len() ==> after[j].0 == lane[j].0 && (lane[j].0 != entity ==> after[j]
                == lane[j])
        }),
{
    let after = store::with_component(lane, entity, value);
    store::lemma_found(lane, entity);
    let k = store::position(lane, entity);
    assert forall|i: int| 0 <= i < k implies (#[trigger] after[i]).0 != entity by {
        assert(lane[i].0 != entity);
    }
    assert(after[k] == (entity, value));
    store::lemma_position(after, entity, k);
    assert forall|a: int, b: int| 0 <= a < b < after.len() implies (#[trigger] after[a]).0 != (
    #[trigger] after[b]).0 by {
        if b < lane.len() {
            assert(lane[a].0 != lane[b].0);
        } else {
            assert(lane[a].0 != entity);
        }
    }
}

/// A removed component is gone, and all others stay, in their order.
pub proof fn a_removed_component_is_gone<T>(lane: Seq<(Entity, T)>, entity: Entity, j: int)
    requires
        one_each(lane),
    ensures
        ({
            let after = store::without(lane, entity);
            &&& one_each(after)
            &&& !store::holds(after, entity)
            &&& 0 <= j < lane.len() && lane[j].0 != entity ==> {
                let shift = if exists|k: int| 0 <= k < j && (#[trigger] lane[k]).0 == entity {
                    1int
                } else {
                    0
                };
                j - shift < after.len() && after[j - shift] == lane[j]
            }
            &&& 0 <= j < after.len() ==> pairs(lane, after[j].0, after[j].1)
        }),
{
    let after = store::without(lane, entity);
    store::lemma_found(lane, entity);
    let p = store::position(lane, entity);
    assert forall|i: int| 0 <= i < after.len() implies (#[trigger] after[i]) == lane[if i < p {
        i
    } else {
        i + 1
    }] && after[i].0 != entity by {
        if p < lane.len() && i >= p {
            assert(lane[p].0 != lane[i + 1].0);
        } else {
            assert(lane[i].0 != entity);
        }
    }
    assert forall|a: int, b: int| 0 <= a < b < after.len() implies (#[trigger] after[a]).0 != (
    #[trigger] after[b]).0 by {
        let x = if a < p {
            a
        } else {
            a + 1
        };
        let y = if b < p {
            b
        } else {
            b + 1
        };
        assert(lane[x].0 != lane[y].0);
    }
    store::lemma_position(after, entity, after.len() as int);
    if 0 <= j < lane.len() && lane[j].0 != entity {
        if exists|k: int| 0 <= k < j && (#[trigger] lane[k]).0 == entity {
            let k = choose|k: int| 0 <= k < j && (#[trigger] lane[k]).0 == entity;
            assert(p <= k);
            assert(p == k) by {
                if p < k {
                    assert(lane[p].0 != lane[k].0);
                }
            }
            assert(after[j - 1] == lane[j]);
        } else {
            assert(p >= j);
            assert(after[j] == lane[j]);
        }
    }
    if 0 <= j < after.len() {
        let x = if j < p {
            j
        } else {
            j + 1
        };
        assert(lane[x] == (after[j].0, after[j].1));
    }
}

/// A destroyed entity is no longer alive and has no component of any kind. Other entities stay alive,
/// and its handle is not given out again.
pub proof fn a_destroyed_entity_leaves_nothing(view: StoreView, entity: Entity, other: Entity)
    requires
        view.handles_ok(),
        one_each(view.transforms),
        one_each(view.meshes),
        one_each(view.materials),
        view.created < u64::MAX,
    ensures
        ({
            let after = view.destroyed(entity);
            &&& !after.alive.contains(entity)
            &&& !store::holds(after.transforms, entity)
            &&& !store::holds(after.meshes, entity)
            &&& !store::holds(after.materials, entity)
            &&& other != entity ==> (after.alive.contains(other) <==> view.alive.contains(other))
            &&& view.alive.contains(entity) ==> after.with_entity().alive.last() != entity
        }),
{
    a_removed_component_is_gone(view.transforms, entity, 0);
    a_removed_component_is_gone(view.meshes, entity, 0);
    a_removed_component_is_gone(view.materials, entity, 0);
    let after = view.destroyed(entity);
    view.alive.index_of_first_ensures(entity);
    if view.alive.contains(entity) {
        let at = view.alive.index_of_first(entity)->0;
        assert(after.alive == view.alive.remove(at));
        assert(view.alive[at] == entity);
        assert forall|i: int| 0 <= i < after.alive.len() implies #[trigger] after.alive[i] != entity by {
            let x = if i < at {
                i
            } else {
                i + 1
            };
            assert(view.alive[x] != view.alive[at]);
        }
        if other != entity && view.alive.contains(other) {
            let k = choose|k: int| 0 <= k < view.alive.len() && view.alive[k] == other;
            let x = if k < at {
                k
            } else {
                k - 1
            };
            assert(after.alive[x] == other);
        }
        if after.alive.contains(other) {
            let k = choose|k: int| 0 <= k < after.alive.len() && after.alive[k] == other;
            let x = if k < at {
                k
            } else {
                k + 1
            };
            assert(view.alive[x] == other);
        }
    }
}

} // verus!
