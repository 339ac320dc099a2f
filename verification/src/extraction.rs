//! Extraction of render data from the component store.
use vstd::prelude::*;

use crate::scene::{Bits, EntityDesc, MaterialDesc, MeshDesc, Scene, TransformDesc};
use crate::store;
use crate::store::{Entity, RenderStore, StoreView};

verus! {

/// Tessellation floor: segments and rings when no entity asks for more.
pub const DEFAULT_MESH_PARAMS: (u32, u32) = (32, 24);

/// One drawn instance: where it stands, the radius of its sphere and its material.
#[derive(Clone, Copy, Debug, PartialEq, Eq)]
pub struct InstanceDesc {
    pub transform: TransformDesc,
    pub radius: Bits,
    /// Index into the materials of the same snapshot.
    pub material_index: u32,
}

/// Render data of one frame.
#[derive(Debug)]
pub struct RenderExtracted {
    /// Largest tessellation that the extracted entities ask for.
    pub mesh_params: (u32, u32),
    /// Materials, in the order of the instances.
    pub materials: Vec<MaterialDesc>,
    /// One instance per extracted entity.
    pub instances: Vec<InstanceDesc>,
}

/// View of a [`RenderExtracted`].
#[verifier::ext_equal]
pub struct ExtractedView {
    pub mesh_params: (u32, u32),
    pub materials: Seq<MaterialDesc>,
    pub instances: Seq<InstanceDesc>,
}

impl View for RenderExtracted {
    type V = ExtractedView;

    open spec fn view(&self) -> ExtractedView {
        ExtractedView {
            mesh_params: self.mesh_params,
            materials: self.materials@,
            instances: self.instances@,
        }
    }
}

impl ExtractedView {
    /// Nothing extracted.
    pub open spec fn empty() -> ExtractedView {
        ExtractedView {
            mesh_params: DEFAULT_MESH_PARAMS,
            materials: Seq::empty(),
            instances: Seq::empty(),
        }
    }
}

impl Default for RenderExtracted {
    /// Nothing extracted.
    fn default() -> (e: RenderExtracted)
        ensures
            e@ == ExtractedView::empty(),
    {
        RenderExtracted {
            mesh_params: DEFAULT_MESH_PARAMS,
            materials: Vec::new(),
            instances: Vec::new(),
        }
    }
}

/// Segments and rings of a mesh.
pub open spec fn tessellation(mesh: MeshDesc) -> (u32, u32) {
    match mesh {
        MeshDesc::Sphere { segments, rings, .. } => (segments, rings),
    }
}

/// Radius of a mesh.
pub open spec fn radius_of(mesh: MeshDesc) -> Bits {
    match mesh {
        MeshDesc::Sphere { radius, .. } => radius,
    }
}

/// Componentwise maximum.
pub open spec fn larger(a: (u32, u32), b: (u32, u32)) -> (u32, u32) {
    (
        if a.0 < b.0 {
            b.0
        } else {
            a.0
        },
        if a.1 < b.1 {
            b.1
        } else {
            a.1
        },
    )
}

/// An entity that has a placement is complete when it has a mesh and a material too.
pub open spec fn complete(view: StoreView, entity: Entity) -> bool {
    store::holds(view.meshes, entity) && store::holds(view.materials, entity)
}

/// What the first `n` placements give.
pub open spec fn extracted(view: StoreView, n: int) -> ExtractedView
    decreases n,
{
    if n <= 0 {
        ExtractedView::empty()
    } else {
        let before = extracted(view, n - 1);
        let (entity, transform) = view.transforms[n - 1];
        if complete(view, entity) {
            let mesh = store::component(view.meshes, entity);
            ExtractedView {
                mesh_params: larger(before.mesh_params, tessellation(mesh)),
                materials: before.materials.push(store::component(view.materials, entity)),
                instances: before.instances.push(
                    InstanceDesc {
                        transform,
                        radius: radius_of(mesh),
                        material_index: before.materials.len() as u32,
                    },
                ),
            }
        } else {
            before
        }
    }
}

/// What a store gives: its complete entities, in the order of their placements.
pub open spec fn extraction(view: StoreView) -> ExtractedView {
    extracted(view, view.transforms.len() as int)
}

/// The extracted materials can be counted in 32 bits, so that their indexes fit.
pub open spec fn indexes_fit(view: StoreView) -> bool {
    extraction(view).materials.len() <= u32::MAX
}

proof fn lemma_materials_grow(view: StoreView, m: int, n: int)
    requires
        m <= n,
    ensures
        extracted(view, m).materials.len() <= extracted(view, n).materials.len(),
    decreases n - m,
{
    if m < n {
        lemma_materials_grow(view, m, n - 1);
    }
}

fn raise(params: (u32, u32), segments: u32, rings: u32) -> (out: (u32, u32))
    ensures
        out == larger(params, (segments, rings)),
{
    let s: u32 = if params.0 < segments {
        segments
    } else {
        params.0
    };
    let r: u32 = if params.1 < rings {
        rings
    } else {
        params.1
    };
    (s, r)
}

/// Extracts the complete entities of a store, in the order of their placements. Entities that
/// miss a component are skipped.
pub fn extract_render_data(store: &RenderStore) -> (out: RenderExtracted)
    requires
        store.wf(),
        indexes_fit(store@),
    ensures
        out@ == extraction(store@),
{
    let mut out: RenderExtracted = Default::default();
    let transforms = store.transforms();
    let meshes = store.meshes();
    let materials = store.materials();
    let count: usize = transforms.len();
    for i in 0..count
        invariant
            count == transforms@.len(),
            indexes_fit(store@),
            transforms.wf(),
            meshes.wf(),
            materials.wf(),
            transforms@ == store@.transforms,
            meshes@ == store@.meshes,
            materials@ == store@.materials,
            out@ == extracted(store@, i as int),
    {
        proof {
            lemma_materials_grow(store@, i + 1, count as int);
        }
        let (entity, transform) = transforms.at(i);
        if let Some(mesh) = meshes.get(entity) {
            if let Some(material) = materials.get(entity) {
                let MeshDesc::Sphere { radius, segments, rings } = mesh;
                out.mesh_params = raise(out.mesh_params, segments, rings);
                let material_index: u32 = out.materials.len() as u32;
                out.materials.push(material);
                out.instances.push(InstanceDesc { transform, radius, material_index });
            }
        }
    }
    out
}

/// Largest tessellation over the complete entities among the first `n` placements, not below the
/// floor.
pub open spec fn largest_params(view: StoreView, n: int) -> (u32, u32)
    decreases n,
{
    if n <= 0 {
        DEFAULT_MESH_PARAMS
    } else if complete(view, view.transforms[n - 1].0) {
        larger(
            largest_params(view, n - 1),
            tessellation(store::component(view.meshes, view.transforms[n - 1].0)),
        )
    } else {
        largest_params(view, n - 1)
    }
}

/// Largest tessellation over the complete entities of a store, not below the floor.
pub fn max_mesh_params(store: &RenderStore) -> (params: (u32, u32))
    requires
        store.wf(),
    ensures
        params == largest_params(store@, store@.transforms.len() as int),
        params == extraction(store@).mesh_params,
        DEFAULT_MESH_PARAMS.0 <= params.0,
        DEFAULT_MESH_PARAMS.1 <= params.1,
{
    let transforms = store.transforms();
    let meshes = store.meshes();
    let materials = store.materials();
    let mut params: (u32, u32) = DEFAULT_MESH_PARAMS;
    let count: usize = transforms.len();
    for i in 0..count
        invariant
            count == transforms@.len(),
            transforms.wf(),
            meshes.wf(),
            materials.wf(),
            transforms@ == store@.transforms,
            meshes@ == store@.meshes,
            materials@ == store@.materials,
            params == largest_params(store@, i as int),
    {
        let (entity, _) = transforms.at(i);
        if let Some(mesh) = meshes.get(entity) {
            if materials.get(entity).is_some() {
                let MeshDesc::Sphere { segments, rings, .. } = mesh;
                params = raise(params, segments, rings);
            }
        }
    }
    proof {
        mesh_params_are_the_extraction_params(store@);
        lemma_params_floor(store@, count as int);
    }
    params
}

proof fn lemma_params_agree(view: StoreView, n: int)
    ensures
        largest_params(view, n) == extracted(view, n).mesh_params,
    decreases n,
{
    if n > 0 {
        lemma_params_agree(view, n - 1);
    }
}

/// The tessellation that decides when a mesh is made anew is the one that extraction reports.
pub proof fn mesh_params_are_the_extraction_params(view: StoreView)
    ensures
        largest_params(view, view.transforms.len() as int) == extraction(view).mesh_params,
{
    lemma_params_agree(view, view.transforms.len() as int);
}

pub(crate) proof fn lemma_materials_pair_up(view: StoreView, n: int)
    requires
        extracted(view, n).materials.len() <= u32::MAX,
    ensures
        extracted(view, n).materials.len() == extracted(view, n).instances.len(),
        forall|k: int|
            0 <= k < extracted(view, n).instances.len() ==> (#[trigger] extracted(
                view,
                n,
            ).instances[k]).material_index == k,
    decreases n,
{
    if n > 0 {
        lemma_materials_grow(view, n - 1, n);
        lemma_materials_pair_up(view, n - 1);
    }
}

proof fn lemma_materials_bound(view: StoreView, n: int)
    requires
        0 <= n,
    ensures
        extracted(view, n).materials.len() <= n,
    decreases n,
{
    if n > 0 {
        lemma_materials_bound(view, n - 1);
    }
}

/// At most as many materials are extracted as entities are placed.
pub proof fn materials_do_not_exceed_placements(view: StoreView)
    ensures
        extraction(view).materials.len() <= view.transforms.len(),
{
    lemma_materials_bound(view, view.transforms.len() as int);
}

/// Every instance has a material of its own, at its own position.
pub proof fn instances_and_materials_pair_up(view: StoreView, k: int)
    requires
        indexes_fit(view),
        0 <= k < extraction(view).instances.len(),
    ensures
        extraction(view).materials.len() == extraction(view).instances.len(),
        extraction(view).instances[k].material_index == k,
{
    lemma_materials_pair_up(view, view.transforms.len() as int);
}

proof fn lemma_params_cover(view: StoreView, n: int, i: int)
    requires
        0 <= i < n <= view.transforms.len(),
        complete(view, view.transforms[i].0),
    ensures
        ({
            let wanted = tessellation(store::component(view.meshes, view.transforms[i].0));
            let params = largest_params(view, n);
            wanted.0 <= params.0 && wanted.1 <= params.1
        }),
    decreases n,
{
    if i < n - 1 {
        lemma_params_cover(view, n - 1, i);
    }
}

proof fn lemma_params_floor(view: StoreView, n: int)
    ensures
        DEFAULT_MESH_PARAMS.0 <= largest_params(view, n).0,
        DEFAULT_MESH_PARAMS.1 <= largest_params(view, n).1,
    decreases n,
{
    if n > 0 {
        lemma_params_floor(view, n - 1);
    }
}

/// The reported tessellation is enough for every complete entity and never below the floor.
pub proof fn mesh_params_cover_every_entity(view: StoreView, i: int)
    requires
        0 <= i < view.transforms.len(),
        complete(view, view.transforms[i].0),
    ensures
        tessellation(store::component(view.meshes, view.transforms[i].0)).0 <= extraction(
            view,
        ).mesh_params.0,
        tessellation(store::component(view.meshes, view.transforms[i].0)).1 <= extraction(
            view,
        ).mesh_params.1,
        DEFAULT_MESH_PARAMS.0 <= extraction(view).mesh_params.0,
        DEFAULT_MESH_PARAMS.1 <= extraction(view).mesh_params.1,
{
    let n = view.transforms.len() as int;
    lemma_params_cover(view, n, i);
    lemma_params_floor(view, n);
    mesh_params_are_the_extraction_params(view);
}

/// Placement `i` is of a complete entity that asks for `s` segments.
pub open spec fn asks_for_segments(view: StoreView, s: u32, i: int) -> bool {
    &&& 0 <= i < view.transforms.len()
    &&& complete(view, view.transforms[i].0)
    &&& tessellation(store::component(view.meshes, view.transforms[i].0)).0 == s
}

/// Placement `i` is of a complete entity that asks for `r` rings.
pub open spec fn asks_for_rings(view: StoreView, r: u32, i: int) -> bool {
    &&& 0 <= i < view.transforms.len()
    &&& complete(view, view.transforms[i].0)
    &&& tessellation(store::component(view.meshes, view.transforms[i].0)).1 == r
}

proof fn lemma_params_attained(view: StoreView, n: int)
    requires
        n <= view.transforms.len(),
    ensures
        largest_params(view, n).0 == DEFAULT_MESH_PARAMS.0 || exists|i: int| #[trigger]
            asks_for_segments(view, largest_params(view, n).0, i),
        largest_params(view, n).1 == DEFAULT_MESH_PARAMS.1 || exists|i: int| #[trigger]
            asks_for_rings(view, largest_params(view, n).1, i),
    decreases n,
{
    if n > 0 {
        lemma_params_attained(view, n - 1);
        if complete(view, view.transforms[n - 1].0) {
            let wanted = tessellation(store::component(view.meshes, view.transforms[n - 1].0));
            assert(asks_for_segments(view, wanted.0, n - 1));
            assert(asks_for_rings(view, wanted.1, n - 1));
        }
    }
}

/// Only complete entities raise the reported tessellation above the floor: one that misses its
/// placement, mesh or material never does.
pub proof fn only_complete_entities_raise_mesh_params(view: StoreView)
    ensures
        extraction(view).mesh_params.0 == DEFAULT_MESH_PARAMS.0 || exists|i: int| #[trigger]
            asks_for_segments(view, extraction(view).mesh_params.0, i),
        extraction(view).mesh_params.1 == DEFAULT_MESH_PARAMS.1 || exists|i: int| #[trigger]
            asks_for_rings(view, extraction(view).mesh_params.1, i),
{
    lemma_params_attained(view, view.transforms.len() as int);
    mesh_params_are_the_extraction_params(view);
}

/// A store with the entities of a scene and the snapshot of its last frame.
#[derive(Debug)]
pub struct RenderWorld {
    store: RenderStore,
    entities: Vec<Entity>,
    snapshot: RenderExtracted,
}

/// View of a [`RenderWorld`].
#[verifier::ext_equal]
pub struct WorldView {
    pub store: StoreView,
    /// Handles of the scene's entities.
    pub entities: Seq<Entity>,
    pub snapshot: ExtractedView,
}

impl View for RenderWorld {
    type V = WorldView;

    closed spec fn view(&self) -> WorldView {
        WorldView {
            store: self.store@,
            entities: self.entities@,
            snapshot: self.snapshot@,
        }
    }
}

/// The store without those of the first `n` entities that still exist.
pub open spec fn cleared(view: StoreView, entities: Seq<Entity>, n: int) -> StoreView
    decreases n,
{
    if n <= 0 {
        view
    } else {
        let before = cleared(view, entities, n - 1);
        if before.alive.contains(entities[n - 1]) {
            before.destroyed(entities[n - 1])
        } else {
            before
        }
    }
}

/// The store with one more entity of a scene.
pub open spec fn with_scene_entity(view: StoreView, desc: EntityDesc) -> StoreView {
    let entity = Entity(view.created as u64);
    let next = view.with_entity();
    StoreView {
        transforms: store::with_component(next.transforms, entity, desc.transform),
        meshes: store::with_component(next.meshes, entity, desc.mesh),
        materials: store::with_component(next.materials, entity, desc.material),
        ..next
    }
}

/// The store with the first `n` entities of a scene.
pub open spec fn populated(view: StoreView, scene: Seq<EntityDesc>, n: int) -> StoreView
    decreases n,
{
    if n <= 0 {
        view
    } else {
        with_scene_entity(populated(view, scene, n - 1), scene[n - 1])
    }
}

/// Handles of `n` entities that are created one after the other.
pub open spec fn handles(first: nat, n: nat) -> Seq<Entity> {
    Seq::new(n, |i: int| Entity((first + i) as u64))
}

impl WorldView {
    /// With its entities replaced by those of a scene. The snapshot stays.
    pub open spec fn with_scene(self, scene: Seq<EntityDesc>) -> WorldView {
        let empty = cleared(self.store, self.entities, self.entities.len() as int);
        WorldView {
            store: populated(empty, scene, scene.len() as int),
            entities: handles(empty.created, scene.len()),
            snapshot: self.snapshot,
        }
    }
}

proof fn lemma_cleared_created(view: StoreView, entities: Seq<Entity>, n: int)
    ensures
        cleared(view, entities, n).created == view.created,
    decreases n,
{
    if n > 0 {
        lemma_cleared_created(view, entities, n - 1);
    }
}

proof fn lemma_populated_created(view: StoreView, scene: Seq<EntityDesc>, n: int)
    requires
        0 <= n,
    ensures
        populated(view, scene, n).created == view.created + n,
    decreases n,
{
    if n > 0 {
        lemma_populated_created(view, scene, n - 1);
    }
}

fn insert_scene_entities(store: &mut RenderStore, entities: &Vec<EntityDesc>) -> (handed: Vec<
    Entity,
>)
    requires
        old(store).wf(),
        old(store)@.created + entities@.len() <= u64::MAX,
    ensures
        final(store).wf(),
        final(store)@ == populated(old(store)@, entities@, entities@.len() as int),
        handed@ == handles(old(store)@.created, entities@.len()),
{
    let ghost before = store@;
    let mut handed: Vec<Entity> = Vec::new();
    for i in 0..entities.len()
        invariant
            store.wf(),
            before.created + entities@.len() <= u64::MAX,
            store@ == populated(before, entities@, i as int),
            handed@ == handles(before.created, i as nat),
    {
        proof {
            lemma_populated_created(before, entities@, i as int);
        }
        let entity = store.create_entity();
        store.insert_transform(entity, entities[i].transform);
        store.insert_mesh(entity, entities[i].mesh);
        store.insert_material(entity, entities[i].material);
        handed.push(entity);
        assert(handed@ =~= handles(before.created, (i + 1) as nat));
    }
    handed
}

impl RenderWorld {
    /// The store is well formed.
    pub closed spec fn wf(&self) -> bool {
        self.store.wf()
    }

    /// A world without entities.
    pub fn new() -> (world: RenderWorld)
        ensures
            world.wf(),
            world@ == (WorldView {
                store: StoreView::empty(),
                entities: Seq::empty(),
                snapshot: ExtractedView::empty(),
            }),
    {
        RenderWorld { store: RenderStore::new(), entities: Vec::new(), snapshot: Default::default() }
    }

    /// A world with the entities of a scene.
    pub fn from_scene(scene: &Scene) -> (world: RenderWorld)
        ensures
            world.wf(),
            world@ == (WorldView {
                store: StoreView::empty(),
                entities: Seq::empty(),
                snapshot: ExtractedView::empty(),
            }).with_scene(scene.entities@),
    {
        let mut world = RenderWorld::new();
        assert(scene.entities.len() <= u64::MAX);
        world.replace_scene(scene);
        world
    }

    /// The component store.
    pub fn store(&self) -> (store: &RenderStore)
        requires
            self.wf(),
        ensures
            store.wf(),
            store@ == self@.store,
    {
        &self.store
    }

    /// The component store, for setup. The handles of the scene's entities stay as they are.
    pub fn store_mut(&mut self) -> (store: &mut RenderStore)
        requires
            old(self).wf(),
        ensures
            store.wf(),
            store@ == old(self)@.store,
            final(store).wf() ==> final(self).wf(),
            final(self)@ == (WorldView { store: final(store)@, ..old(self)@ }),
    {
        &mut self.store
    }

    /// Number of entities of the scene.
    pub fn entity_count(&self) -> (n: usize)
        ensures
            n == self@.entities.len(),
    {
        self.entities.len()
    }

    /// Handles of the scene's entities.
    pub fn entities(&self) -> (entities: &Vec<Entity>)
        ensures
            entities@ == self@.entities,
    {
        &self.entities
    }

    /// Replaces the scene's entities: those that still exist are destroyed, then the new ones are
    /// created. Other entities stay. The snapshot is refreshed by the next frame.
    pub fn replace_scene(&mut self, scene: &Scene)
        requires
            old(self).wf(),
            old(self)@.store.created + scene.entities@.len() <= u64::MAX,
        ensures
            final(self).wf(),
            final(self)@ == old(self)@.with_scene(scene.entities@),
    {
        let ghost before = self@;
        let count: usize = self.entities.len();
        for i in 0..count
            invariant
                count == before.entities.len(),
                self.wf(),
                self.entities@ == before.entities,
                self.snapshot@ == before.snapshot,
                self.store@ == cleared(before.store, before.entities, i as int),
        {
            let entity = self.entities[i];
            if self.store.is_alive(entity) {
                self.store.destroy_entity(entity);
            }
        }
        proof {
            lemma_cleared_created(before.store, before.entities, before.entities.len() as int);
        }
        self.entities = insert_scene_entities(&mut self.store, &scene.entities);
    }

    /// Runs one frame: takes a fresh snapshot.
    pub fn run_frame(&mut self)
        requires
            old(self).wf(),
            indexes_fit(old(self)@.store),
        ensures
            final(self).wf(),
            final(self)@ == (WorldView { snapshot: extraction(old(self)@.store), ..old(self)@ }),
    {
        self.snapshot = extract_render_data(&self.store);
    }

    /// The snapshot of the last frame. Before the first frame it is empty.
    pub fn extracted(&self) -> (snapshot: &RenderExtracted)
        ensures
            snapshot@ == self@.snapshot,
    {
        &self.snapshot
    }
}

} // verus!
