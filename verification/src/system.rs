//! Typed systems: resources known by type, passes that declare their accesses as types, and the
//! registry that turns both into plan declarations.
use vstd::prelude::*;
#[allow(unused_imports)]
use vstd::string::*;

use crate::compile::ReadBeforeWrite;
#[allow(unused_imports)]
use crate::compile::is_first_offence;
use crate::declarations::{Color, PassId, ResourceId, TextureFormat, TextureSpec};
#[allow(unused_imports)]
use crate::declarations::{frame_of, ids_in_range, pass_decls, resource_decls, PassDecl, ResourceDecl};
use crate::frame_plan::{FramePlan, PassBuilder};
#[allow(unused_imports)]
use crate::frame_plan::{output_spec, PlanView};
use crate::ordering::OrderError;
#[allow(unused_imports)]
use crate::ordering::{edge_error, pass_names};
use crate::transient_pool::{Budget, BudgetExceeded, FrameLayout, PoolInput};
#[allow(unused_imports)]
use crate::transient_pool::exceeds;

verus! {

/// Who provides the texture of a typed resource.
#[derive(Debug, Clone, Copy, PartialEq, Eq, Structural)]
pub enum ResourceOrigin {
    /// The plan pools it.
    PlanOwned,
    /// The caller provides the view; never pooled.
    ExternalOutput,
}

/// A resource whose identity is its type.
pub trait FrameResource {
    /// Number that stands for the type: no two resource types share one.
    spec fn key_of() -> u32;

    /// Name in layouts.
    spec fn name_text() -> Seq<char>;

    /// Who provides the texture.
    spec fn origin_of() -> ResourceOrigin;

    /// Texture specification, given the format of the surface.
    spec fn spec_of(surface_format: TextureFormat) -> TextureSpec;

    /// Number that stands for the type.
    fn key() -> (k: u32)
        ensures
            k == Self::key_of(),
    ;

    /// Name in layouts.
    fn name() -> (s: &'static str)
        ensures
            s@ == Self::name_text(),
    ;

    /// Who provides the texture.
    fn kind() -> (o: ResourceOrigin)
        ensures
            o == Self::origin_of(),
    ;

    /// Texture specification, given the format of the surface.
    fn spec(surface_format: TextureFormat) -> (s: TextureSpec)
        ensures
            s == Self::spec_of(surface_format),
    ;
}

/// Declaration of a typed resource.
pub open spec fn typed_decl<R: FrameResource>(surface_format: TextureFormat) -> ResourceDecl {
    match R::origin_of() {
        ResourceOrigin::PlanOwned => ResourceDecl {
            name: R::name_text(),
            spec: R::spec_of(surface_format),
            imported: false,
            external: false,
        },
        ResourceOrigin::ExternalOutput => ResourceDecl {
            name: R::name_text(),
            spec: output_spec(),
            imported: true,
            external: true,
        },
    }
}

/// Accesses of a typed pass, by resource key.
#[derive(Debug)]
pub struct SystemAccess {
    pub reads: Vec<u32>,
    pub writes: Vec<(u32, Option<Color>)>,
}

/// View of a [`SystemAccess`].
#[verifier::ext_equal]
pub struct AccessView {
    pub reads: Seq<u32>,
    pub writes: Seq<(u32, Option<Color>)>,
}

impl View for SystemAccess {
    type V = AccessView;

    open spec fn view(&self) -> AccessView {
        AccessView { reads: self.reads@, writes: self.writes@ }
    }
}

/// What a pass does when it runs.
#[derive(Debug, Clone, Copy, PartialEq, Eq, Structural)]
pub enum PassBody {
    /// Fill the G-buffer.
    Gbuffer,
    /// Resolve the G-buffer into the HDR layer.
    Lighting,
    /// Draw the forward layer; with its own depth buffer or with the one of the G-buffer.
    Forward { owns_depth: bool },
    /// Bright-pass downsample; from the forward layer or from the deferred one.
    BloomBright { from_forward: bool },
    /// Plain downsample between two bloom levels.
    BloomDown,
    /// Additive upsample between two bloom levels.
    BloomUp,
    /// Mix the layers into the target.
    Composite { shader_mode: u32, bloom: bool },
}

/// A pass whose accesses are declared by its type.
pub trait FramePass {
    /// Name in layouts.
    spec fn name_text(&self) -> Seq<char>;

    /// Declared accesses.
    spec fn access_of(&self) -> AccessView;

    /// What the pass does.
    spec fn body_of(&self) -> PassBody;

    /// Name in layouts.
    fn name(&self) -> (s: &'static str)
        ensures
            s@ == self.name_text(),
    ;

    /// Declared accesses.
    fn access(&self) -> (a: SystemAccess)
        ensures
            a@ == self.access_of(),
    ;

    /// What the pass does.
    fn body(&self) -> (b: PassBody)
        ensures
            b == self.body_of(),
    ;
}

/// View of a [`SystemSet`].
#[verifier::ext_equal]
pub struct SystemsView {
    pub plan: PlanView,
    /// Type key of every resource, `None` if it was registered without a type.
    pub types: Seq<Option<u32>>,
    /// Body of every pass, `None` if it was declared without a type.
    pub bodies: Seq<Option<PassBody>>,
}

/// Position of the latest resource of the type, if any.
pub open spec fn resolve_type(types: Seq<Option<u32>>, key: u32) -> Option<ResourceId>
    decreases types.len(),
{
    if types.len() == 0 {
        None
    } else if types.last() == Some(key) {
        Some(ResourceId((types.len() - 1) as u32))
    } else {
        resolve_type(types.drop_last(), key)
    }
}

/// Every key names a registered type.
pub open spec fn all_registered(types: Seq<Option<u32>>, access: AccessView) -> bool {
    &&& forall|k: int|
        0 <= k < access.reads.len() ==> resolve_type(types, #[trigger] access.reads[k]) is Some
    &&& forall|k: int|
        0 <= k < access.writes.len() ==> resolve_type(types, (#[trigger] access.writes[k]).0)
            is Some
}

/// The pass declaration of a typed pass.
pub open spec fn typed_pass(
    types: Seq<Option<u32>>,
    name: Seq<char>,
    access: AccessView,
) -> PassDecl {
    PassDecl {
        name,
        reads: access.reads.map_values(|k: u32| resolve_type(types, k)->0),
        writes: access.writes.map_values(
            |w: (u32, Option<Color>)| (resolve_type(types, w.0)->0, w.1),
        ),
        enabled: true,
    }
}

/// The registry of typed and untyped declarations.
#[derive(Debug)]
pub struct SystemSet {
    plan: FramePlan,
    types: Vec<Option<u32>>,
    bodies: Vec<Option<PassBody>>,
}

impl View for SystemSet {
    type V = SystemsView;

    closed spec fn view(&self) -> SystemsView {
        SystemsView { plan: self.plan@, types: self.types@, bodies: self.bodies@ }
    }
}

proof fn lemma_resolve_in_range(types: Seq<Option<u32>>, key: u32)
    requires
        types.len() <= u32::MAX + 1,
    ensures
        resolve_type(types, key) is Some ==> (resolve_type(types, key)->0).0 < types.len()
            && types[(resolve_type(types, key)->0).0 as int] == Some(key),
    decreases types.len(),
{
    if types.len() > 0 && types.last() != Some(key) {
        lemma_resolve_in_range(types.drop_last(), key);
    }
}

impl SystemSet {
    /// One type entry per resource, one body entry per pass, and the plan is well formed.
    pub closed spec fn wf(self) -> bool {
        &&& self.plan.wf()
        &&& self.plan@.resources.len() <= u32::MAX + 1
        &&& self.types@.len() == self.plan@.resources.len()
        &&& self.bodies@.len() == self.plan@.passes.len()
    }

    /// Every access names a registered resource.
    pub proof fn lemma_ids_in_range(&self)
        requires
            self.wf(),
        ensures
            ids_in_range(self@.plan.passes, self@.plan.resources.len()),
            self@.types.len() == self@.plan.resources.len(),
    {
        self.plan.lemma_ids_in_range();
    }

    /// How often the layout has been compiled.
    pub closed spec fn compiled(self) -> u32 {
        self.plan.compiled()
    }

    /// A layout of the current declarations is cached.
    pub closed spec fn is_cached(self) -> bool {
        self.plan.is_cached()
    }

    /// An empty registry.
    pub fn new() -> (set: SystemSet)
        ensures
            set.wf(),
            set@.plan.resources.len() == 0,
            set@.plan.passes.len() == 0,
            set@.plan.ordering.len() == 0,
            set@.plan.surface_size == (0u32, 0u32),
            set@.plan.budget.limit is None,
            set@.types.len() == 0,
            set@.bodies.len() == 0,
            set.compiled() == 0,
            !set.is_cached(),
    {
        SystemSet { plan: FramePlan::new((0, 0)), types: Vec::new(), bodies: Vec::new() }
    }

    /// Updates the surface size.
    pub fn set_surface_size(&mut self, size: (u32, u32))
        requires
            old(self).wf(),
        ensures
            final(self).wf(),
            final(self)@ == (SystemsView {
                plan: PlanView { surface_size: size, ..old(self)@.plan.touched() },
                ..old(self)@
            }),
            final(self).compiled() == old(self).compiled(),
            !final(self).is_cached(),
    {
        self.plan.set_surface_size(size.0, size.1);
    }

    /// Sets the memory budget.
    pub fn set_budget(&mut self, budget: Budget)
        requires
            old(self).wf(),
        ensures
            final(self).wf(),
            final(self)@ == (SystemsView {
                plan: PlanView { budget, ..old(self)@.plan.touched() },
                ..old(self)@
            }),
            final(self).compiled() == old(self).compiled(),
            !final(self).is_cached(),
    {
        self.plan.set_budget(budget);
    }

    /// The configured budget.
    pub fn budget(&self) -> (b: Budget)
        ensures
            b == self@.plan.budget,
    {
        self.plan.budget()
    }

    /// Registers a resource by its type.
    pub fn register_resource<R: FrameResource>(&mut self, surface_format: TextureFormat) -> (id:
        ResourceId)
        requires
            old(self).wf(),
            old(self)@.plan.resources.len() <= u32::MAX,
        ensures
            final(self).wf(),
            id.0 == old(self)@.plan.resources.len(),
            final(self)@ == (SystemsView {
                plan: old(self)@.plan.with_resource(typed_decl::<R>(surface_format)),
                types: old(self)@.types.push(Some(R::key_of())),
                ..old(self)@
            }),
            final(self).compiled() == old(self).compiled(),
            !final(self).is_cached(),
    {
        let id: ResourceId = match R::kind() {
            ResourceOrigin::PlanOwned => self.plan.create_resource(
                R::name(),
                R::spec(surface_format),
            ),
            ResourceOrigin::ExternalOutput => self.plan.external_output(R::name()),
        };
        self.types.push(Some(R::key()));
        id
    }

    /// Registers a plan-owned resource without a type.
    pub fn create_resource(&mut self, name: &str, spec: TextureSpec) -> (id: ResourceId)
        requires
            old(self).wf(),
            old(self)@.plan.resources.len() <= u32::MAX,
        ensures
            final(self).wf(),
            id.0 == old(self)@.plan.resources.len(),
            final(self)@ == (SystemsView {
                plan: old(self)@.plan.with_resource(
                    ResourceDecl { name: name@, spec, imported: false, external: false },
                ),
                types: old(self)@.types.push(None),
                ..old(self)@
            }),
            final(self).compiled() == old(self).compiled(),
            !final(self).is_cached(),
    {
        let id: ResourceId = self.plan.create_resource(name, spec);
        self.types.push(None);
        id
    }

    /// Registers an externally backed output without a type.
    pub fn external_output(&mut self, name: &str) -> (id: ResourceId)
        requires
            old(self).wf(),
            old(self)@.plan.resources.len() <= u32::MAX,
        ensures
            final(self).wf(),
            id.0 == old(self)@.plan.resources.len(),
            final(self)@ == (SystemsView {
                plan: old(self)@.plan.with_resource(
                    ResourceDecl {
                        name: name@,
                        spec: output_spec(),
                        imported: true,
                        external: true,
                    },
                ),
                types: old(self)@.types.push(None),
                ..old(self)@
            }),
            final(self).compiled() == old(self).compiled(),
            !final(self).is_cached(),
    {
        let id: ResourceId = self.plan.external_output(name);
        self.types.push(None);
        id
    }

    /// Starts declaring a pass without a type.
    pub fn add_pass(&mut self, name: &str) -> (b: PassBuilder<'_>)
        requires
            old(self).wf(),
            old(self)@.plan.passes.len() <= u32::MAX,
        ensures
            b.wf(),
            b.id.0 == old(self)@.plan.passes.len(),
            b.plan@ == old(self)@.plan.with_pass(name@),
            b.plan.compiled() == old(self).compiled(),
            !b.plan.is_cached(),
            final(self)@ == (SystemsView {
                plan: final(b.plan)@,
                types: old(self)@.types,
                bodies: old(self)@.bodies.push(None),
            }),
            final(self).compiled() == final(b.plan).compiled(),
            final(self).is_cached() == final(b.plan).is_cached(),
            final(b.plan).wf() && final(b.plan)@.resources.len() == old(self)@.plan.resources.len()
                && final(b.plan)@.passes.len() == old(self)@.plan.passes.len() + 1
                ==> final(self).wf(),
    {
        self.bodies.push(None);
        self.plan.add_pass(name)
    }

    /// The latest resource of the type, if any.
    pub fn resolve(&self, key: u32) -> (id: Option<ResourceId>)
        requires
            self.wf(),
        ensures
            id == resolve_type(self@.types, key),
    {
        let mut n: usize = self.types.len();
        assert(self.types@.subrange(0, n as int) == self.types@);
        while n > 0
            invariant
                n <= self.types@.len(),
                self.types@.len() <= u32::MAX + 1,
                resolve_type(self.types@.subrange(0, n as int), key) == resolve_type(
                    self.types@,
                    key,
                ),
            decreases n,
        {
            assert(self.types@.subrange(0, n as int).drop_last() == self.types@.subrange(
                0,
                n - 1,
            ));
            if let Some(k) = self.types[n - 1] {
                if k == key {
                    return Some(ResourceId((n - 1) as u32));
                }
            }
            n = n - 1;
        }
        None
    }

    fn resolve_reads(&self, keys: &Vec<u32>) -> (ids: Vec<ResourceId>)
        requires
            self.wf(),
            forall|k: int|
                0 <= k < keys@.len() ==> resolve_type(self@.types, #[trigger] keys@[k]) is Some,
        ensures
            ids@ == keys@.map_values(|k: u32| resolve_type(self@.types, k)->0),
            forall|k: int| 0 <= k < ids@.len() ==> (#[trigger] ids@[k]).0 < self@.types.len(),
    {
        let mut ids: Vec<ResourceId> = Vec::new();
        for i in 0..keys.len()
            invariant
                self.wf(),
                forall|k: int|
                    0 <= k < keys@.len() ==> resolve_type(self@.types, #[trigger] keys@[k])
                        is Some,
                ids@.len() == i,
                forall|k: int|
                    0 <= k < i ==> #[trigger] ids@[k] == resolve_type(self@.types, keys@[k])->0
                        && ids@[k].0 < self@.types.len(),
        {
            proof {
                lemma_resolve_in_range(self@.types, keys@[i as int]);
            }
            match self.resolve(keys[i]) {
                Some(id) => {
                    ids.push(id);
                },
                None => {
                    assert(false);
                },
            }
        }
        assert(ids@ =~= keys@.map_values(|k: u32| resolve_type(self@.types, k)->0));
        ids
    }

    fn resolve_writes(&self, keys: &Vec<(u32, Option<Color>)>) -> (ids: Vec<
        (ResourceId, Option<Color>),
    >)
        requires
            self.wf(),
            forall|k: int|
                0 <= k < keys@.len() ==> resolve_type(self@.types, (#[trigger] keys@[k]).0) is Some,
        ensures
            ids@ == keys@.map_values(
                |w: (u32, Option<Color>)| (resolve_type(self@.types, w.0)->0, w.1),
            ),
            forall|k: int|
                0 <= k < ids@.len() ==> ((#[trigger] ids@[k]).0).0 < self@.types.len(),
    {
        let mut ids: Vec<(ResourceId, Option<Color>)> = Vec::new();
        for i in 0..keys.len()
            invariant
                self.wf(),
                forall|k: int|
                    0 <= k < keys@.len() ==> resolve_type(self@.types, (#[trigger] keys@[k]).0)
                        is Some,
                ids@.len() == i,
                forall|k: int|
                    0 <= k < i ==> #[trigger] ids@[k] == (
                        resolve_type(self@.types, keys@[k].0)->0,
                        keys@[k].1,
                    ) && (ids@[k].0).0 < self@.types.len(),
        {
            proof {
                lemma_resolve_in_range(self@.types, keys@[i as int].0);
            }
            match self.resolve(keys[i].0) {
                Some(id) => {
                    ids.push((id, keys[i].1));
                },
                None => {
                    assert(false);
                },
            }
        }
        assert(ids@ =~= keys@.map_values(
            |w: (u32, Option<Color>)| (resolve_type(self@.types, w.0)->0, w.1),
        ));
        ids
    }
}

impl SystemSet {
    /// Declares a typed pass: its accesses are resolved through the registered types.
    pub fn add_system<P: FramePass>(&mut self, pass: P) -> (id: PassId)
        requires
            old(self).wf(),
            old(self)@.plan.passes.len() <= u32::MAX,
            all_registered(old(self)@.types, pass.access_of()),
        ensures
            final(self).wf(),
            id.0 == old(self)@.plan.passes.len(),
            final(self)@ == (SystemsView {
                plan: old(self)@.plan.with_declared(
                    typed_pass(old(self)@.types, pass.name_text(), pass.access_of()),
                ),
                bodies: old(self)@.bodies.push(Some(pass.body_of())),
                ..old(self)@
            }),
            final(self).compiled() == old(self).compiled(),
            !final(self).is_cached(),
    {
        let access = pass.access();
        let reads = self.resolve_reads(&access.reads);
        let writes = self.resolve_writes(&access.writes);
        let id: PassId = self.plan.declare_pass(pass.name(), reads, writes);
        self.bodies.push(Some(pass.body()));
        id
    }

    /// Declares that pass `before` must come before pass `after`.
    pub fn try_order_before(&mut self, before: PassId, after: PassId) -> (res: Result<
        (),
        OrderError,
    >)
        requires
            old(self).wf(),
        ensures
            final(self).wf(),
            match edge_error(pass_names(old(self)@.plan.passes), before.0 as nat, after.0 as nat) {
                Some(e) => res is Err && res->Err_0@ == e && *final(self) == *old(self),
                None => {
                    &&& res is Ok
                    &&& final(self)@ == (SystemsView {
                        plan: old(self)@.plan.with_edge(before, after),
                        ..old(self)@
                    })
                    &&& final(self).compiled() == old(self).compiled()
                    &&& !final(self).is_cached()
                },
            },
    {
        self.plan.try_order_before(before, after)
    }

    /// Enables or disables a pass.
    pub fn set_pass_enabled(&mut self, id: PassId, enabled: bool)
        requires
            old(self).wf(),
            id.0 < old(self)@.plan.passes.len(),
        ensures
            final(self).wf(),
            final(self)@ == (SystemsView {
                plan: old(self)@.plan.with_enabled(id, enabled),
                ..old(self)@
            }),
            final(self).compiled() == old(self).compiled(),
            !final(self).is_cached(),
    {
        self.plan.set_pass_enabled(id, enabled);
    }

    /// Declaration generation: changes with every mutation.
    pub fn generation(&self) -> (g: u64)
        ensures
            g == self@.plan.generation,
    {
        self.plan.generation()
    }

    /// Checks the first-touch rule.
    pub fn check(&self) -> (res: Result<(), ReadBeforeWrite>)
        requires
            self.wf(),
        ensures
            res is Ok <==> self@.plan.ok(),
            res is Err ==> exists|i: int, k: int| #[trigger]
                is_first_offence(
                    self@.plan.resources,
                    frame_of(self@.plan.passes),
                    res->Err_0,
                    i,
                    k,
                ),
    {
        self.plan.check()
    }

    /// Borrowed declarations for a pool.
    pub fn pool_input(&self) -> (input: PoolInput<'_>)
        ensures
            resource_decls(input.resources@) == self@.plan.resources,
            pass_decls(input.passes@) == self@.plan.passes,
            input.ordering@ == self@.plan.ordering,
            input.surface_size == self@.plan.surface_size,
            input.budget == self@.plan.budget,
    {
        self.plan.pool_input()
    }

    /// The frame layout, compiled only if the declarations changed since the last call.
    pub fn layout(&mut self) -> (layout: &FrameLayout)
        requires
            old(self).wf(),
            old(self)@.plan.ok(),
            old(self)@.plan.fits_budget(),
        ensures
            final(self).wf(),
            final(self)@ == old(self)@,
            old(self)@.plan.compiles_to(*layout),
            final(self).is_cached(),
            final(self).compiled() == if old(self).is_cached() {
                old(self).compiled()
            } else {
                old(self).compiled().wrapping_add(1)
            },
    {
        self.plan.layout()
    }

    /// Like [`SystemSet::layout`], but a budget violation is returned.
    pub fn try_layout(&mut self) -> (res: Result<&FrameLayout, BudgetExceeded>)
        requires
            old(self).wf(),
            old(self)@.plan.ok(),
        ensures
            final(self).wf(),
            final(self)@ == old(self)@,
            final(self).compiled() == if old(self).is_cached() {
                old(self).compiled()
            } else {
                old(self).compiled().wrapping_add(1)
            },
            res is Ok <==> old(self)@.plan.fits_budget(),
            match res {
                Ok(layout) => {
                    &&& old(self)@.plan.compiles_to(*layout)
                    &&& old(self)@.plan.budget.admits(*layout)
                    &&& final(self).is_cached()
                },
                Err(e) => {
                    &&& !final(self).is_cached()
                    &&& exists|layout: FrameLayout| #[trigger]
                        old(self)@.plan.compiles_to(layout) && !old(self)@.plan.budget.admits(
                            layout,
                        ) && exceeds(e, layout, old(self)@.plan.budget.limit->0)
                },
            },
    {
        self.plan.try_layout()
    }

    /// Snapshot of the layout as an owned value.
    pub fn build(&mut self) -> (layout: FrameLayout)
        requires
            old(self).wf(),
            old(self)@.plan.ok(),
            old(self)@.plan.fits_budget(),
        ensures
            final(self).wf(),
            final(self)@ == old(self)@,
            old(self)@.plan.compiles_to(layout),
            final(self).is_cached(),
            final(self).compiled() == if old(self).is_cached() {
                old(self).compiled()
            } else {
                old(self).compiled().wrapping_add(1)
            },
    {
        self.plan.build()
    }

    /// How many times the layout has been compiled.
    pub fn layout_computations(&self) -> (n: u32)
        ensures
            n == self.compiled(),
    {
        self.plan.layout_computations()
    }

    /// Type key of a resource; `None` if it was registered without a type.
    pub fn resource_type(&self, id: ResourceId) -> (key: Option<u32>)
        requires
            self.wf(),
            id.0 < self@.plan.resources.len(),
        ensures
            key == self@.types[id.0 as int],
    {
        self.types[id.0 as usize]
    }

    /// What the pass does; `None` if it was declared without a type.
    pub fn pass_body(&self, id: PassId) -> (body: Option<PassBody>)
        requires
            self.wf(),
            id.0 < self@.plan.passes.len(),
        ensures
            body == self@.bodies[id.0 as int],
    {
        self.bodies[id.0 as usize]
    }
}

} // verus!
