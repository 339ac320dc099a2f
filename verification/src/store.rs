//! The component store: entities and dense lanes of components.
use vstd::prelude::*;

use crate::scene::{MaterialDesc, MeshDesc, TransformDesc};

verus! {

/// A handle of an entity. Handles are never given out twice.
#[derive(Clone, Copy, Debug, PartialEq, Eq, Structural)]
pub struct Entity(pub u64);

/// Components of one type, densely packed in insertion order, at most one per entity.
#[derive(Debug)]
pub struct Lane<T> {
    entities: Vec<Entity>,
    data: Vec<T>,
}

/// Position of an entity in a lane, or the lane's length.
pub open spec fn position<T>(lane: Seq<(Entity, T)>, entity: Entity) -> int
    decreases lane.len(),
{
    if lane.len() == 0 || lane[0].0 == entity {
        0
    } else {
        1 + position(lane.drop_first(), entity)
    }
}

/// The lane has a component of the entity.
pub open spec fn holds<T>(lane: Seq<(Entity, T)>, entity: Entity) -> bool {
    position(lane, entity) < lane.len()
}

/// The component of an entity.
pub open spec fn component<T>(lane: Seq<(Entity, T)>, entity: Entity) -> T {
    lane[position(lane, entity)].1
}

/// The lane with a component set: in place where the entity has one, else last.
pub open spec fn with_component<T>(lane: Seq<(Entity, T)>, entity: Entity, value: T) -> Seq<
    (Entity, T),
> {
    if holds(lane, entity) {
        lane.update(position(lane, entity), (entity, value))
    } else {
        lane.push((entity, value))
    }
}

/// The lane without an entity. The others keep their order.
pub open spec fn without<T>(lane: Seq<(Entity, T)>, entity: Entity) -> Seq<(Entity, T)> {
    if holds(lane, entity) {
        lane.remove(position(lane, entity))
    } else {
        lane
    }
}

pub(crate) proof fn lemma_position<T>(lane: Seq<(Entity, T)>, entity: Entity, k: int)
    requires
        0 <= k <= lane.len(),
        forall|j: int| 0 <= j < k ==> (#[trigger] lane[j]).0 != entity,
        k < lane.len() ==> lane[k].0 == entity,
    ensures
        position(lane, entity) == k,
    decreases lane.len(),
{
    if k > 0 {
        assert(lane[0].0 != entity);
        let rest = lane.drop_first();
        assert forall|j: int| 0 <= j < k - 1 implies (#[trigger] rest[j]).0 != entity by {
            assert(rest[j] == lane[j + 1]);
        }
        lemma_position(rest, entity, k - 1);
    }
}

impl<T> Lane<T> {
    /// Entities and data pair up.
    pub closed spec fn wf(&self) -> bool {
        self.entities@.len() == self.data@.len()
    }
}

impl<T> View for Lane<T> {
    type V = Seq<(Entity, T)>;

    closed spec fn view(&self) -> Seq<(Entity, T)> {
        Seq::new(self.entities@.len(), |i: int| (self.entities@[i], self.data@[i]))
    }
}

impl<T: Copy> Lane<T> {
    /// A lane without components.
    pub fn new() -> (lane: Lane<T>)
        ensures
            lane.wf(),
            lane@ == Seq::<(Entity, T)>::empty(),
    {
        let lane = Lane { entities: Vec::new(), data: Vec::new() };
        assert(lane@ =~= Seq::<(Entity, T)>::empty());
        lane
    }

    /// Number of components.
    pub fn len(&self) -> (n: usize)
        requires
            self.wf(),
        ensures
            n == self@.len(),
    {
        self.entities.len()
    }

    /// The entity and the component at a position.
    pub fn at(&self, i: usize) -> (pair: (Entity, T))
        requires
            self.wf(),
            i < self@.len(),
        ensures
            pair == self@[i as int],
    {
        (self.entities[i], self.data[i])
    }

    fn find(&self, entity: Entity) -> (k: usize)
        requires
            self.wf(),
        ensures
            k == position(self@, entity),
            k <= self.entities@.len(),
    {
        let mut k: usize = 0;
        while k < self.entities.len() && self.entities[k] != entity
            invariant
                self.wf(),
                k <= self.entities@.len(),
                forall|j: int| 0 <= j < k ==> (#[trigger] self@[j]).0 != entity,
            decreases self.entities@.len() - k,
        {
            assert(self@[k as int].0 == self.entities@[k as int]);
            k = k + 1;
        }
        proof {
            lemma_position(self@, entity, k as int);
        }
        k
    }

    /// The component of an entity.
    pub fn get(&self, entity: Entity) -> (value: Option<T>)
        requires
            self.wf(),
        ensures
            value == if holds(self@, entity) {
                Some(component(self@, entity))
            } else {
                None
            },
    {
        let k: usize = self.find(entity);
        if k < self.entities.len() {
            Some(self.data[k])
        } else {
            None
        }
    }

    /// Sets the component of an entity.
    pub fn insert(&mut self, entity: Entity, value: T)
        requires
            old(self).wf(),
        ensures
            final(self).wf(),
            final(self)@ == with_component(old(self)@, entity, value),
    {
        let k: usize = self.find(entity);
        if k < self.entities.len() {
            let ghost before = self@;
            proof {
                lemma_found(before, entity);
            }
            self.data.set(k, value);
            assert(self@ =~= before.update(k as int, (entity, value)));
        } else {
            let ghost before = self@;
            self.entities.push(entity);
            self.data.push(value);
            assert(self@ =~= before.push((entity, value)));
        }
    }

    /// Removes the component of an entity, where it has one.
    pub fn remove(&mut self, entity: Entity)
        requires
            old(self).wf(),
        ensures
            final(self).wf(),
            final(self)@ == without(old(self)@, entity),
    {
        let k: usize = self.find(entity);
        if k < self.entities.len() {
            let ghost before = self@;
            self.entities.remove(k);
            self.data.remove(k);
            assert(self@ =~= before.remove(k as int));
        }
    }
}

pub(crate) proof fn lemma_found<T>(lane: Seq<(Entity, T)>, entity: Entity)
    ensures
        0 <= position(lane, entity) <= lane.len(),
        holds(lane, entity) ==> lane[position(lane, entity)].0 == entity,
        forall|j: int| 0 <= j < position(lane, entity) ==> (#[trigger] lane[j]).0 != entity,
    decreases lane.len(),
{
    if lane.len() > 0 && lane[0].0 != entity {
        let rest = lane.drop_first();
        lemma_found(rest, entity);
        assert forall|j: int| 0 <= j < position(lane, entity) implies (#[trigger] lane[j]).0
            != entity by {
            if j > 0 {
                assert(rest[j - 1] == lane[j]);
            }
        }
    }
}

/// Entities with their render components.
#[derive(Debug)]
pub struct RenderStore {
    next: u64,
    alive: Vec<Entity>,
    transforms: Lane<TransformDesc>,
    meshes: Lane<MeshDesc>,
    materials: Lane<MaterialDesc>,
}

/// View of a [`RenderStore`].
#[verifier::ext_equal]
pub struct StoreView {
    /// Number of handles given out.
    pub created: nat,
    pub alive: Seq<Entity>,
    pub transforms: Seq<(Entity, TransformDesc)>,
    pub meshes: Seq<(Entity, MeshDesc)>,
    pub materials: Seq<(Entity, MaterialDesc)>,
}

impl View for RenderStore {
    type V = StoreView;

    closed spec fn view(&self) -> StoreView {
        StoreView {
            created: self.next as nat,
            alive: self.alive@,
            transforms: self.transforms@,
            meshes: self.meshes@,
            materials: self.materials@,
        }
    }
}

impl StoreView {
    /// No entities.
    pub open spec fn empty() -> StoreView {
        StoreView {
            created: 0,
            alive: Seq::empty(),
            transforms: Seq::empty(),
            meshes: Seq::empty(),
            materials: Seq::empty(),
        }
    }

    /// Handles of living entities have been given out and are distinct.
    pub open spec fn handles_ok(self) -> bool {
        &&& forall|i: int|
            0 <= i < self.alive.len() ==> (#[trigger] self.alive[i]).0 < self.created
        &&& self.alive.no_duplicates()
    }

    /// With one more entity, which has no components.
    pub open spec fn with_entity(self) -> StoreView {
        StoreView {
            created: self.created + 1,
            alive: self.alive.push(Entity(self.created as u64)),
            ..self
        }
    }

    /// Without an entity and its components.
    pub open spec fn destroyed(self, entity: Entity) -> StoreView {
        StoreView {
            created: self.created,
            alive: self.alive.remove_value(entity),
            transforms: without(self.transforms, entity),
            meshes: without(self.meshes, entity),
            materials: without(self.materials, entity),
        }
    }
}

impl RenderStore {
    /// The lanes pair up and handles are in order.
    pub closed spec fn wf(&self) -> bool {
        &&& self.transforms.wf()
        &&& self.meshes.wf()
        &&& self.materials.wf()
        &&& self@.handles_ok()
    }

    /// A store without entities.
    pub fn new() -> (store: RenderStore)
        ensures
            store.wf(),
            store@ == StoreView::empty(),
    {
        RenderStore {
            next: 0,
            alive: Vec::new(),
            transforms: Lane::new(),
            meshes: Lane::new(),
            materials: Lane::new(),
        }
    }

    /// Creates an entity without components.
    pub fn create_entity(&mut self) -> (entity: Entity)
        requires
            old(self).wf(),
            old(self)@.created < u64::MAX,
        ensures
            final(self).wf(),
            final(self)@ == old(self)@.with_entity(),
            entity == Entity(old(self)@.created as u64),
            !old(self)@.alive.contains(entity),
    {
        let entity = Entity(self.next);
        self.next = self.next + 1;
        self.alive.push(entity);
        entity
    }

    /// Whether the entity exists.
    pub fn is_alive(&self, entity: Entity) -> (yes: bool)
        requires
            self.wf(),
        ensures
            yes == self@.alive.contains(entity),
    {
        for i in 0..self.alive.len()
            invariant
                forall|j: int| 0 <= j < i ==> #[trigger] self.alive@[j] != entity,
        {
            if self.alive[i] == entity {
                assert(self@.alive[i as int] == entity);
                return true;
            }
        }
        false
    }

    /// Destroys an entity with its components. A handle that names no entity changes nothing
    /// but the components that were set for it.
    pub fn destroy_entity(&mut self, entity: Entity)
        requires
            old(self).wf(),
        ensures
            final(self).wf(),
            final(self)@ == old(self)@.destroyed(entity),
    {
        let ghost before = self@;
        let mut at: usize = 0;
        while at < self.alive.len() && self.alive[at] != entity
            invariant
                at <= self.alive@.len(),
                *self == *old(self),
                forall|j: int| 0 <= j < at ==> #[trigger] self.alive@[j] != entity,
            decreases self.alive@.len() - at,
        {
            at = at + 1;
        }
        proof {
            if at < self.alive@.len() {
                assert(before.alive.contains(entity));
                let k = before.alive.index_of_first(entity);
                before.alive.index_of_first_ensures(entity);
                assert(k == Some(at as int));
            } else {
                assert(!before.alive.contains(entity));
                before.alive.index_of_first_ensures(entity);
            }
        }
        if at < self.alive.len() {
            self.alive.remove(at);
            assert(self.alive@ == before.alive.remove(at as int));
        }
        self.transforms.remove(entity);
        self.meshes.remove(entity);
        self.materials.remove(entity);
        assert(self@ =~= before.destroyed(entity));
    }

    /// Sets the placement of an entity.
    pub fn insert_transform(&mut self, entity: Entity, value: TransformDesc)
        requires
            old(self).wf(),
        ensures
            final(self).wf(),
            final(self)@ == (StoreView {
                transforms: with_component(old(self)@.transforms, entity, value),
                ..old(self)@
            }),
    {
        self.transforms.insert(entity, value);
    }

    /// Sets the geometry of an entity.
    pub fn insert_mesh(&mut self, entity: Entity, value: MeshDesc)
        requires
            old(self).wf(),
        ensures
            final(self).wf(),
            final(self)@ == (StoreView {
                meshes: with_component(old(self)@.meshes, entity, value),
                ..old(self)@
            }),
    {
        self.meshes.insert(entity, value);
    }

    /// Sets the surface of an entity.
    pub fn insert_material(&mut self, entity: Entity, value: MaterialDesc)
        requires
            old(self).wf(),
        ensures
            final(self).wf(),
            final(self)@ == (StoreView {
                materials: with_component(old(self)@.materials, entity, value),
                ..old(self)@
            }),
    {
        self.materials.insert(entity, value);
    }

    /// Placements.
    pub fn transforms(&self) -> (lane: &Lane<TransformDesc>)
        requires
            self.wf(),
        ensures
            lane.wf(),
            lane@ == self@.transforms,
    {
        &self.transforms
    }

    /// Geometries.
    pub fn meshes(&self) -> (lane: &Lane<MeshDesc>)
        requires
            self.wf(),
        ensures
            lane.wf(),
            lane@ == self@.meshes,
    {
        &self.meshes
    }

    /// Surfaces.
    pub fn materials(&self) -> (lane: &Lane<MaterialDesc>)
        requires
            self.wf(),
        ensures
            lane.wf(),
            lane@ == self@.materials,
    {
        &self.materials
    }
}

} // verus!
