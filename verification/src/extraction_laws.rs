//! Laws of scene replacement and extraction.
use vstd::prelude::*;

use crate::extraction;
use crate::extraction::{ExtractedView, InstanceDesc, WorldView};
use crate::scene::{EntityDesc, MaterialDesc, MeshDesc, TransformDesc};
use crate::store;
use crate::store::{Entity, StoreView};

verus! {

/// The lane has one component per entity, in the same order.
pub open spec fn lane_of<T>(lane: Seq<(Entity, T)>, entities: Seq<Entity>) -> bool {
    &&& lane.len() == entities.len()
    &&& forall|i: int| 0 <= i < lane.len() ==> (#[trigger] lane[i]).0 == entities[i]
}

/// The store holds the listed entities and nothing else, each with its three components.
pub open spec fn holds_only(view: StoreView, entities: Seq<Entity>) -> bool {
    &&& view.alive == entities
    &&& entities.no_duplicates()
    &&& lane_of(view.transforms, entities)
    &&& lane_of(view.meshes, entities)
    &&& lane_of(view.materials, entities)
}

/// What the entities of a scene give: one instance per entity, in order.
pub open spec fn scene_extraction(scene: Seq<EntityDesc>, n: int) -> ExtractedView
    decreases n,
{
    if n <= 0 {
        ExtractedView::empty()
    } else {
        let before = scene_extraction(scene, n - 1);
        let desc = scene[n - 1];
        ExtractedView {
            mesh_params: extraction::larger(
                before.mesh_params,
                extraction::tessellation(desc.mesh),
            ),
            materials: before.materials.push(desc.material),
            instances: before.instances.push(
                InstanceDesc {
                    transform: desc.transform,
                    radius: extraction::radius_of(desc.mesh),
                    material_index: before.materials.len() as u32,
                },
            ),
        }
    }
}

proof fn lemma_lane_cleared<T>(lane: Seq<(Entity, T)>, entities: Seq<Entity>, k: int)
    requires
        lane_of(lane, entities),
        0 <= k < entities.len(),
    ensures
        store::without(lane.subrange(k, lane.len() as int), entities[k]) == lane.subrange(
            k + 1,
            lane.len() as int,
        ),
{
    let rest = lane.subrange(k, lane.len() as int);
    assert(rest[0] == lane[k]);
    store::lemma_position(rest, entities[k], 0);
    assert(rest.remove(0) == lane.subrange(k + 1, lane.len() as int));
}

proof fn lemma_cleared(view: StoreView, entities: Seq<Entity>, n: int)
    requires
        holds_only(view, entities),
        0 <= n <= entities.len(),
    ensures
        extraction::cleared(view, entities, n) == (StoreView {
            created: view.created,
            alive: entities.subrange(n, entities.len() as int),
            transforms: view.transforms.subrange(n, view.transforms.len() as int),
            meshes: view.meshes.subrange(n, view.meshes.len() as int),
            materials: view.materials.subrange(n, view.materials.len() as int),
        }),
    decreases n,
{
    if n == 0 {
        assert(entities.subrange(0, entities.len() as int) == entities);
        assert(view.transforms.subrange(0, view.transforms.len() as int) == view.transforms);
        assert(view.meshes.subrange(0, view.meshes.len() as int) == view.meshes);
        assert(view.materials.subrange(0, view.materials.len() as int) == view.materials);
    } else {
        lemma_cleared(view, entities, n - 1);
        let before = extraction::cleared(view, entities, n - 1);
        let gone = entities[n - 1];
        assert(before.alive[0] == gone);
        before.alive.index_of_first_ensures(gone);
        assert(before.alive.remove(0) == entities.subrange(n, entities.len() as int));
        lemma_lane_cleared(view.transforms, entities, n - 1);
        lemma_lane_cleared(view.meshes, entities, n - 1);
        lemma_lane_cleared(view.materials, entities, n - 1);
    }
}

proof fn lemma_absent<T>(lane: Seq<(Entity, T)>, entities: Seq<Entity>, entity: Entity)
    requires
        lane_of(lane, entities),
        !entities.contains(entity),
    ensures
        !store::holds(lane, entity),
{
    assert forall|j: int| 0 <= j < lane.len() implies (#[trigger] lane[j]).0 != entity by {
        assert(lane[j].0 == entities[j]);
    }
    store::lemma_position(lane, entity, lane.len() as int);
}

/// The view is that of a scene's entities, created one after the other from `first` on.
pub open spec fn is_scene(view: StoreView, first: nat, scene: Seq<EntityDesc>, n: int) -> bool {
    &&& view.created == first + n
    &&& holds_only(view, extraction::handles(first, n as nat))
    &&& forall|i: int|
        0 <= i < n ==> (#[trigger] view.transforms[i]).1 == scene[i].transform
            && view.meshes[i].1 == scene[i].mesh && view.materials[i].1 == scene[i].material
}

proof fn lemma_populated(view: StoreView, scene: Seq<EntityDesc>, n: int)
    requires
        view.alive.len() == 0,
        view.transforms.len() == 0,
        view.meshes.len() == 0,
        view.materials.len() == 0,
        0 <= n <= scene.len(),
        view.created + scene.len() <= u64::MAX,
    ensures
        is_scene(extraction::populated(view, scene, n), view.created, scene, n),
    decreases n,
{
    let first = view.created;
    if n == 0 {
        assert(view.alive =~= extraction::handles(first, 0));
    } else {
        lemma_populated(view, scene, n - 1);
        let before = extraction::populated(view, scene, n - 1);
        let after = extraction::populated(view, scene, n);
        let old_handles = extraction::handles(first, (n - 1) as nat);
        let new_handles = extraction::handles(first, n as nat);
        let entity = Entity(before.created as u64);
        assert(new_handles =~= old_handles.push(entity));
        assert(!old_handles.contains(entity));
        lemma_absent(before.transforms, old_handles, entity);
        lemma_absent(before.meshes, old_handles, entity);
        lemma_absent(before.materials, old_handles, entity);
        let desc = scene[n - 1];
        assert(after.transforms == before.transforms.push((entity, desc.transform)));
        assert(after.meshes == before.meshes.push((entity, desc.mesh)));
        assert(after.materials == before.materials.push((entity, desc.material)));
        assert(after.alive =~= new_handles);
        assert(new_handles.no_duplicates());
        assert forall|i: int| 0 <= i < n implies (#[trigger] after.transforms[i]).1
            == scene[i].transform && after.meshes[i].1 == scene[i].mesh && after.materials[i].1
            == scene[i].material by {
            if i < n - 1 {
                assert(after.transforms[i] == before.transforms[i]);
            }
        }
    }
}

proof fn lemma_scene_component<T>(lane: Seq<(Entity, T)>, entities: Seq<Entity>, i: int)
    requires
        lane_of(lane, entities),
        entities.no_duplicates(),
        0 <= i < entities.len(),
    ensures
        store::holds(lane, entities[i]),
        store::component(lane, entities[i]) == lane[i].1,
{
    assert forall|j: int| 0 <= j < i implies (#[trigger] lane[j]).0 != entities[i] by {
        assert(lane[j].0 == entities[j]);
    }
    assert(lane[i].0 == entities[i]);
    store::lemma_position(lane, entities[i], i);
}

proof fn lemma_scene_extracted(view: StoreView, first: nat, scene: Seq<EntityDesc>, n: int)
    requires
        is_scene(view, first, scene, scene.len() as int),
        0 <= n <= scene.len(),
    ensures
        extraction::extracted(view, n) == scene_extraction(scene, n),
    decreases n,
{
    if n > 0 {
        lemma_scene_extracted(view, first, scene, n - 1);
        let entities = extraction::handles(first, scene.len());
        let i = n - 1;
        assert(view.transforms[i].0 == entities[i]);
        lemma_scene_component(view.meshes, entities, i);
        lemma_scene_component(view.materials, entities, i);
        assert(view.transforms[i].1 == scene[i].transform);
    }
}

/// A world that holds nothing but its scene holds, after a replacement, nothing but the new scene,
/// and its next snapshot has one instance per entity of it, in order. What was there before
/// leaves no trace.
pub proof fn replacing_a_scene_leaves_only_the_new_one(world: WorldView, scene: Seq<EntityDesc>)
    requires
        holds_only(world.store, world.entities),
        world.store.created + scene.len() <= u64::MAX,
    ensures
        holds_only(world.with_scene(scene).store, world.with_scene(scene).entities),
        world.with_scene(scene).entities.len() == scene.len(),
        extraction::extraction(world.with_scene(scene).store) == scene_extraction(
            scene,
            scene.len() as int,
        ),
{
    let n = world.entities.len() as int;
    lemma_cleared(world.store, world.entities, n);
    let empty = extraction::cleared(world.store, world.entities, n);
    lemma_populated(empty, scene, scene.len() as int);
    lemma_scene_extracted(
        world.with_scene(scene).store,
        empty.created,
        scene,
        scene.len() as int,
    );
}

/// Placement `i`, mesh `m` and material `t` are those of one entity, its first of each kind.
pub open spec fn drawable(view: StoreView, i: int, m: int, t: int) -> bool {
    &&& 0 <= i < view.transforms.len()
    &&& 0 <= m < view.meshes.len()
    &&& 0 <= t < view.materials.len()
    &&& view.meshes[m].0 == view.transforms[i].0
    &&& view.materials[t].0 == view.transforms[i].0
    &&& forall|j: int| 0 <= j < m ==> (#[trigger] view.meshes[j]).0 != view.transforms[i].0
    &&& forall|j: int| 0 <= j < t ==> (#[trigger] view.materials[j]).0 != view.transforms[i].0
}

/// The entity of placement `i` has a mesh and a material.
pub open spec fn is_drawn(view: StoreView, i: int) -> bool {
    exists|m: int, t: int| #[trigger] drawable(view, i, m, t)
}

/// The mesh of some drawn entity has `n` segments.
pub open spec fn some_segments(view: StoreView, n: u32) -> bool {
    exists|i: int, m: int, t: int| #[trigger]
        drawable(view, i, m, t) && view.meshes[m].1->segments == n
}

/// The mesh of some drawn entity has `n` rings.
pub open spec fn some_rings(view: StoreView, n: u32) -> bool {
    exists|i: int, m: int, t: int| #[trigger]
        drawable(view, i, m, t) && view.meshes[m].1->rings == n
}

/// The reported tessellation is the largest that is asked for, on each axis by itself: no drawn entity
/// has more segments or rings, and each number is that of a drawn entity or the floor.
pub proof fn the_tessellation_is_the_largest_asked_for(view: StoreView, i: int, m: int, t: int)
    ensures
        ({
            let params = extraction::extraction(view).mesh_params;
            &&& drawable(view, i, m, t) ==> view.meshes[m].1->segments <= params.0
                && view.meshes[m].1->rings <= params.1
            &&& params.0 >= extraction::DEFAULT_MESH_PARAMS.0
            &&& params.1 >= extraction::DEFAULT_MESH_PARAMS.1
            &&& params.0 == extraction::DEFAULT_MESH_PARAMS.0 || some_segments(view, params.0)
            &&& params.1 == extraction::DEFAULT_MESH_PARAMS.1 || some_rings(view, params.1)
        }),
{
    let n = view.transforms.len() as int;
    lemma_params_attained(view, n);
    if drawable(view, i, m, t) {
        lemma_params_above(view, n, i, m, t);
    }
}

proof fn lemma_params_above(view: StoreView, n: int, i: int, m: int, t: int)
    requires
        drawable(view, i, m, t),
        i < n <= view.transforms.len(),
    ensures
        view.meshes[m].1->segments <= extraction::extracted(view, n).mesh_params.0,
        view.meshes[m].1->rings <= extraction::extracted(view, n).mesh_params.1,
    decreases n,
{
    if i < n - 1 {
        lemma_params_above(view, n - 1, i, m, t);
    } else {
        lemma_complete_is_drawn(view, i);
    }
}

proof fn lemma_params_attained(view: StoreView, n: int)
    requires
        n <= view.transforms.len(),
    ensures
        ({
            let params = extraction::extracted(view, n).mesh_params;
            &&& params.0 >= extraction::DEFAULT_MESH_PARAMS.0
            &&& params.1 >= extraction::DEFAULT_MESH_PARAMS.1
            &&& params.0 == extraction::DEFAULT_MESH_PARAMS.0 || some_segments(view, params.0)
            &&& params.1 == extraction::DEFAULT_MESH_PARAMS.1 || some_rings(view, params.1)
        }),
    decreases n,
{
    if n > 0 {
        lemma_params_attained(view, n - 1);
        lemma_complete_is_drawn(view, n - 1);
        if is_drawn(view, n - 1) {
            let (m, t) = choose|m: int, t: int| #[trigger] drawable(view, n - 1, m, t);
            assert(drawable(view, n - 1, m, t));
        }
    }
}

/// Drawn entities among the first `i` placements.
pub open spec fn drawn_before(view: StoreView, i: int) -> nat
    decreases i,
{
    if i <= 0 {
        0
    } else {
        drawn_before(view, i - 1) + if is_drawn(view, i - 1) {
            1nat
        } else {
            0
        }
    }
}

/// The instance stands where the placement says, is as large as the mesh says, and has the
/// material.
pub open spec fn shows(
    instance: InstanceDesc,
    material: MaterialDesc,
    transform: TransformDesc,
    mesh: MeshDesc,
    wanted: MaterialDesc,
) -> bool {
    &&& instance.transform == transform
    &&& mesh == (MeshDesc::Sphere {
        radius: instance.radius,
        segments: mesh->segments,
        rings: mesh->rings,
    })
    &&& material == wanted
}

proof fn lemma_first<T>(lane: Seq<(Entity, T)>, entity: Entity)
    ensures
        0 <= store::position(lane, entity) <= lane.len(),
        store::holds(lane, entity) ==> lane[store::position(lane, entity)].0 == entity,
        forall|j: int|
            0 <= j < store::position(lane, entity) ==> (#[trigger] lane[j]).0 != entity,
    decreases lane.len(),
{
    if lane.len() > 0 && lane[0].0 != entity {
        let rest = lane.drop_first();
        lemma_first(rest, entity);
        assert forall|j: int| 0 <= j < store::position(lane, entity) implies (
        #[trigger] lane[j]).0 != entity by {
            if j > 0 {
                assert(rest[j - 1] == lane[j]);
            }
        }
        if store::holds(lane, entity) {
            assert(rest[store::position(rest, entity)] == lane[store::position(lane, entity)]);
        }
    }
}

proof fn lemma_complete_is_drawn(view: StoreView, i: int)
    requires
        0 <= i < view.transforms.len(),
    ensures
        extraction::complete(view, view.transforms[i].0) <==> is_drawn(view, i),
        forall|m: int, t: int| #[trigger]
            drawable(view, i, m, t) ==> view.meshes[m].1 == store::component(
                view.meshes,
                view.transforms[i].0,
            ) && view.materials[t].1 == store::component(view.materials, view.transforms[i].0),
{
    let entity = view.transforms[i].0;
    lemma_first(view.meshes, entity);
    lemma_first(view.materials, entity);
    if extraction::complete(view, entity) {
        assert(drawable(
            view,
            i,
            store::position(view.meshes, entity),
            store::position(view.materials, entity),
        ));
    }
    assert forall|m: int, t: int| #[trigger] drawable(view, i, m, t) implies extraction::complete(
        view,
        entity,
    ) && view.meshes[m].1 == store::component(view.meshes, entity) && view.materials[t].1
        == store::component(view.materials, entity) by {
        store::lemma_position(view.meshes, entity, m);
        store::lemma_position(view.materials, entity, t);
    }
}

proof fn lemma_drawn_shown(view: StoreView, n: int, i: int, m: int, t: int)
    requires
        0 <= n <= view.transforms.len(),
    ensures
        extraction::extracted(view, n).instances.len() == drawn_before(view, n),
        extraction::extracted(view, n).materials.len() == drawn_before(view, n),
        i < n && drawable(view, i, m, t) ==> {
            let k = drawn_before(view, i) as int;
            &&& 0 <= k < drawn_before(view, n)
            &&& shows(
                extraction::extracted(view, n).instances[k],
                extraction::extracted(view, n).materials[k],
                view.transforms[i].1,
                view.meshes[m].1,
                view.materials[t].1,
            )
        },
    decreases n,
{
    if n > 0 {
        lemma_drawn_shown(view, n - 1, i, m, t);
        lemma_complete_is_drawn(view, n - 1);
        if i == n - 1 && drawable(view, i, m, t) {
            assert(is_drawn(view, i));
        }
    }
}

/// Every entity with a placement, a mesh and a material is extracted, in the order of the
/// placements, and its instance stands at its own placement, has its own mesh's radius and its own
/// material. Nothing else is extracted.
pub proof fn every_drawn_entity_shows_its_own_components(view: StoreView, i: int, m: int, t: int)
    requires
        drawable(view, i, m, t),
    ensures
        extraction::extraction(view).instances.len() == drawn_before(
            view,
            view.transforms.len() as int,
        ),
        extraction::extraction(view).materials.len() == extraction::extraction(
            view,
        ).instances.len(),
        0 <= drawn_before(view, i) < extraction::extraction(view).instances.len(),
        shows(
            extraction::extraction(view).instances[drawn_before(view, i) as int],
            extraction::extraction(view).materials[drawn_before(view, i) as int],
            view.transforms[i].1,
            view.meshes[m].1,
            view.materials[t].1,
        ),
{
    lemma_drawn_shown(view, view.transforms.len() as int, i, m, t);
}

proof fn lemma_instance_has_source(view: StoreView, n: int, k: int) -> (source: (int, int, int))
    requires
        0 <= n <= view.transforms.len(),
        0 <= k < drawn_before(view, n),
    ensures
        0 <= source.0 < n,
        drawable(view, source.0, source.1, source.2),
        drawn_before(view, source.0) == k,
    decreases n,
{
    if k < drawn_before(view, n - 1) {
        lemma_instance_has_source(view, n - 1, k)
    } else {
        assert(is_drawn(view, n - 1));
        let (m, t) = choose|m: int, t: int| #[trigger] drawable(view, n - 1, m, t);
        (n - 1, m, t)
    }
}

/// Every instance is that of an entity with a placement, a mesh and a material: it stands at the
/// placement, has the mesh's radius, and the material at its position is the entity's.
pub proof fn every_instance_shows_an_entity(view: StoreView, k: int)
    requires
        0 <= k < extraction::extraction(view).instances.len(),
    ensures
        exists|i: int, m: int, t: int| #[trigger]
            drawable(view, i, m, t) && shows(
                extraction::extraction(view).instances[k],
                extraction::extraction(view).materials[k],
                view.transforms[i].1,
                view.meshes[m].1,
                view.materials[t].1,
            ),
{
    let n = view.transforms.len() as int;
    lemma_drawn_shown(view, n, -1, 0, 0);
    let (i, m, t) = lemma_instance_has_source(view, n, k);
    lemma_drawn_shown(view, n, i, m, t);
}

proof fn lemma_scene_shown(scene: Seq<EntityDesc>, n: int, k: int)
    requires
        0 <= n <= scene.len(),
    ensures
        scene_extraction(scene, n).instances.len() == n,
        scene_extraction(scene, n).materials.len() == n,
        0 <= k < n ==> shows(
            scene_extraction(scene, n).instances[k],
            scene_extraction(scene, n).materials[k],
            scene[k].transform,
            scene[k].mesh,
            scene[k].material,
        ) && (n <= u32::MAX ==> scene_extraction(scene, n).instances[k].material_index == k),
    decreases n,
{
    if n > 0 {
        lemma_scene_shown(scene, n - 1, k);
    }
}

/// After a scene replaced another, the next snapshot has one instance per entity of it, in its
/// order: instance `k` stands where entity `k` is placed, has the radius of its sphere, and names
/// its material.
pub proof fn a_scene_is_shown_as_described(world: WorldView, scene: Seq<EntityDesc>, k: int)
    requires
        holds_only(world.store, world.entities),
        world.store.created + scene.len() <= u64::MAX,
        0 <= k < scene.len() <= u32::MAX,
    ensures
        extraction::extraction(world.with_scene(scene).store).instances.len() == scene.len(),
        extraction::extraction(world.with_scene(scene).store).materials.len() == scene.len(),
        extraction::extraction(world.with_scene(scene).store).instances[k].material_index == k,
        shows(
            extraction::extraction(world.with_scene(scene).store).instances[k],
            extraction::extraction(world.with_scene(scene).store).materials[k],
            scene[k].transform,
            scene[k].mesh,
            scene[k].material,
        ),
{
    replacing_a_scene_leaves_only_the_new_one(world, scene);
    lemma_scene_shown(scene, scene.len() as int, k);
}

} // verus!
