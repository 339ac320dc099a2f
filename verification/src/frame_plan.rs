//! Frame plan: the registry of declared resources and passes.
//!
//! Passes are declared in execution order, each with the resources it reads and writes. The
//! plan owns the declarations and their generation, which every mutation bumps; compiling them
//! into a layout is the job of its [`TransientPool`].
use std::sync::Arc;
use vstd::prelude::*;
#[allow(unused_imports)]
use vstd::string::*;

use crate::compile::{check_first_touch, ReadBeforeWrite};
#[allow(unused_imports)]
use crate::compile::is_first_offence;
use crate::declarations::{
    Color, PassId, PassNode, ResourceId, ResourceNode, SizePolicy, TextureFormat, TextureSpec,
};
#[allow(unused_imports)]
use crate::declarations::{
    frame_of, ids_in_range, pass_decls, reads_of, resource_decls, touches, writes_of, PassDecl,
    ResourceDecl,
};
use crate::ordering::{resolve_named_edge, validate_indexed_edge, OrderError};
#[allow(unused_imports)]
use crate::ordering::{edge_error, is_first_named, pass_names};
use crate::transient_pool::{Budget, BudgetExceeded, FrameLayout, PoolInput, TransientPool};
#[allow(unused_imports)]
use crate::transient_pool::{declarations_ok, exceeds};

verus! {

/// View of a [`FramePlan`]: the declarations, the budget and the generation.
#[verifier::ext_equal]
pub struct PlanView {
    pub resources: Seq<ResourceDecl>,
    pub passes: Seq<PassDecl>,
    pub ordering: Seq<(PassId, PassId)>,
    pub surface_size: (u32, u32),
    pub budget: Budget,
    pub generation: u64,
}

impl PlanView {
    /// The layout is the one of these declarations.
    pub open spec fn compiles_to(self, layout: FrameLayout) -> bool {
        layout.describes(self.resources, self.passes, self.ordering, self.surface_size)
    }

    /// Every layout of these declarations fits the budget.
    pub open spec fn fits_budget(self) -> bool {
        forall|layout: FrameLayout| #[trigger]
            self.compiles_to(layout) ==> self.budget.admits(layout)
    }

    /// The declarations compile.
    pub open spec fn ok(self) -> bool {
        declarations_ok(self.resources, self.passes)
    }

    /// The view after a mutation of the declarations.
    pub open spec fn touched(self) -> PlanView {
        PlanView { generation: self.generation.wrapping_add(1), ..self }
    }

    /// The view with one more resource.
    pub open spec fn with_resource(self, r: ResourceDecl) -> PlanView {
        PlanView { resources: self.resources.push(r), ..self }.touched()
    }

    /// The view with one more pass.
    pub open spec fn with_pass(self, name: Seq<char>) -> PlanView {
        PlanView {
            passes: self.passes.push(
                PassDecl {
                    name,
                    reads: Seq::empty(),
                    writes: Seq::empty(),
                    enabled: true,
                },
            ),
            ..self
        }.touched()
    }

    /// The view with one more pass, fully declared.
    pub open spec fn with_declared(self, pass: PassDecl) -> PlanView {
        PlanView { passes: self.passes.push(pass), ..self }.touched()
    }

    /// The view with one more read of pass `p`.
    pub open spec fn with_read(self, p: PassId, r: ResourceId) -> PlanView {
        let pass = self.passes[p.0 as int];
        PlanView {
            passes: self.passes.update(
                p.0 as int,
                PassDecl { reads: pass.reads.push(r), ..pass },
            ),
            ..self
        }.touched()
    }

    /// The view with one more write of pass `p`.
    pub open spec fn with_write(self, p: PassId, r: ResourceId, clear: Option<Color>) -> PlanView {
        let pass = self.passes[p.0 as int];
        PlanView {
            passes: self.passes.update(
                p.0 as int,
                PassDecl { writes: pass.writes.push((r, clear)), ..pass },
            ),
            ..self
        }.touched()
    }

    /// The view with pass `p` enabled or disabled.
    pub open spec fn with_enabled(self, p: PassId, enabled: bool) -> PlanView {
        PlanView {
            passes: self.passes.update(
                p.0 as int,
                PassDecl { enabled, ..self.passes[p.0 as int] },
            ),
            ..self
        }.touched()
    }

    /// The view with an ordering edge, listed once.
    pub open spec fn with_edge(self, before: PassId, after: PassId) -> PlanView {
        PlanView {
            ordering: if self.ordering.contains((before, after)) {
                self.ordering
            } else {
                self.ordering.push((before, after))
            },
            ..self
        }.touched()
    }
}

/// The declarations fit the budget as soon as one of their layouts does: they are all the same.
pub proof fn one_layout_decides_the_budget(plan: PlanView, layout: FrameLayout)
    requires
        plan.compiles_to(layout),
    ensures
        plan.fits_budget() <==> plan.budget.admits(layout),
{
    assert forall|other: FrameLayout| #[trigger] plan.compiles_to(other) implies plan.budget.admits(
        layout,
    ) == plan.budget.admits(other) by {
        crate::layout_laws::layout_is_determined(
            layout,
            other,
            plan.resources,
            plan.passes,
            plan.ordering,
            plan.surface_size,
        );
        crate::transient_pool::same_layouts_need_the_same_bytes(layout, other);
    }
}

/// The pass plan being assembled.
#[derive(Debug)]
pub struct FramePlan {
    resources: Vec<ResourceNode>,
    passes: Vec<PassNode>,
    surface_size: (u32, u32),
    pool: TransientPool,
    generation: u64,
    ordering: Vec<(PassId, PassId)>,
    budget: Budget,
}

impl View for FramePlan {
    type V = PlanView;

    closed spec fn view(&self) -> PlanView {
        PlanView {
            resources: resource_decls(self.resources@),
            passes: pass_decls(self.passes@),
            ordering: self.ordering@,
            surface_size: self.surface_size,
            budget: self.budget,
            generation: self.generation,
        }
    }
}

impl FramePlan {
    /// How often the plan's layout has been compiled.
    pub closed spec fn compiled(self) -> u32 {
        self.pool.compiled()
    }

    /// The cached layout is one that the current declarations compile to.
    pub closed spec fn is_cached(self) -> bool {
        self.pool.cache() is Some
    }

    /// Handles fit, every access names a registered resource, and a cached layout is the one of
    /// the current declarations.
    pub closed spec fn wf(self) -> bool {
        &&& self@.resources.len() <= u32::MAX + 1
        &&& self@.passes.len() <= u32::MAX + 1
        &&& ids_in_range(self@.passes, self@.resources.len())
        &&& self.pool.cache() is Some ==> {
            let (generation, layout) = self.pool.cache()->0;
            generation == self.generation && self@.compiles_to(layout) && self@.budget.admits(
                layout,
            )
        }
    }

    /// Every access names a registered resource.
    pub proof fn lemma_ids_in_range(&self)
        requires
            self.wf(),
        ensures
            ids_in_range(self@.passes, self@.resources.len()),
            self@.resources.len() <= u32::MAX + 1,
            self@.passes.len() <= u32::MAX + 1,
    {
    }

    /// Creates an empty plan; `surface_size` feeds `SizePolicy::MatchSurface`.
    pub fn new(surface_size: (u32, u32)) -> (plan: FramePlan)
        ensures
            plan.wf(),
            plan@.resources.len() == 0,
            plan@.passes.len() == 0,
            plan@.ordering.len() == 0,
            plan@.surface_size == surface_size,
            plan@.budget.limit is None,
            plan@.generation == 0,
            plan.compiled() == 0,
            !plan.is_cached(),
    {
        FramePlan {
            resources: Vec::new(),
            passes: Vec::new(),
            surface_size,
            pool: TransientPool::new(),
            generation: 0,
            ordering: Vec::new(),
            budget: Budget::unbounded(),
        }
    }

    /// Marks the plan dirty: drops the cached layout and bumps the generation.
    fn touch(&mut self)
        ensures
            final(self)@ == old(self)@.touched(),
            final(self).compiled() == old(self).compiled(),
            !final(self).is_cached(),
            final(self).pool.cache() is None,
    {
        self.pool.invalidate();
        self.generation = self.generation.wrapping_add(1);
    }

    /// Declaration generation: changes with every mutation.
    pub fn generation(&self) -> (g: u64)
        ensures
            g == self@.generation,
    {
        self.generation
    }

    /// Updates the surface size (window resize).
    pub fn set_surface_size(&mut self, width: u32, height: u32)
        requires
            old(self).wf(),
        ensures
            final(self).wf(),
            final(self)@ == (PlanView {
                surface_size: (width, height),
                ..old(self)@.touched()
            }),
            final(self).compiled() == old(self).compiled(),
            !final(self).is_cached(),
    {
        self.surface_size = (width, height);
        self.touch();
    }

    /// Sets the memory budget.
    pub fn set_budget(&mut self, budget: Budget)
        requires
            old(self).wf(),
        ensures
            final(self).wf(),
            final(self)@ == (PlanView { budget, ..old(self)@.touched() }),
            final(self).compiled() == old(self).compiled(),
            !final(self).is_cached(),
    {
        self.budget = budget;
        self.touch();
    }

    /// The configured budget.
    pub fn budget(&self) -> (b: Budget)
        ensures
            b == self@.budget,
    {
        self.budget
    }

    fn register(&mut self, name: &str, spec: TextureSpec, imported: bool, external: bool) -> (id:
        ResourceId)
        requires
            old(self).wf(),
            old(self)@.resources.len() <= u32::MAX,
        ensures
            final(self).wf(),
            id.0 == old(self)@.resources.len(),
            final(self)@ == old(self)@.with_resource(
                ResourceDecl { name: name@, spec, imported, external },
            ),
            final(self).compiled() == old(self).compiled(),
            !final(self).is_cached(),
    {
        let id: ResourceId = ResourceId(self.resources.len() as u32);
        let ghost before = self@;
        self.resources.push(
            ResourceNode { name: name.to_owned(), spec, imported, external },
        );
        proof {
            let node = self.resources@.last();
            assert(node@ == (ResourceDecl { name: name@, spec, imported, external }));
            assert(self@.resources =~= before.resources.push(node@));
            assert(ids_in_range(before.passes, before.resources.len()));
        }
        self.touch();
        id
    }

    /// Registers a plan-owned resource (texture).
    pub fn create_resource(&mut self, name: &str, spec: TextureSpec) -> (id: ResourceId)
        requires
            old(self).wf(),
            old(self)@.resources.len() <= u32::MAX,
        ensures
            final(self).wf(),
            id.0 == old(self)@.resources.len(),
            final(self)@ == old(self)@.with_resource(
                ResourceDecl { name: name@, spec, imported: false, external: false },
            ),
            final(self).compiled() == old(self).compiled(),
            !final(self).is_cached(),
    {
        self.register(name, spec, false, false)
    }

    /// Registers an imported resource that passes only read: the first-touch rule does not
    /// apply to it.
    pub fn import_resource(&mut self, name: &str, spec: TextureSpec) -> (id: ResourceId)
        requires
            old(self).wf(),
            old(self)@.resources.len() <= u32::MAX,
        ensures
            final(self).wf(),
            id.0 == old(self)@.resources.len(),
            final(self)@ == old(self)@.with_resource(
                ResourceDecl { name: name@, spec, imported: true, external: false },
            ),
            final(self).compiled() == old(self).compiled(),
            !final(self).is_cached(),
    {
        self.register(name, spec, true, false)
    }

    /// Registers an externally backed output (the swapchain image): passes may write it, but
    /// the plan never pools it.
    pub fn external_output(&mut self, name: &str) -> (id: ResourceId)
        requires
            old(self).wf(),
            old(self)@.resources.len() <= u32::MAX,
        ensures
            final(self).wf(),
            id.0 == old(self)@.resources.len(),
            final(self)@ == old(self)@.with_resource(
                ResourceDecl {
                    name: name@,
                    spec: output_spec(),
                    imported: true,
                    external: true,
                },
            ),
            final(self).compiled() == old(self).compiled(),
            !final(self).is_cached(),
    {
        let spec = TextureSpec {
            format: TextureFormat::Rgba8Unorm,
            samples: 1,
            size: SizePolicy::MatchSurface,
        };
        self.register(name, spec, true, true)
    }

    /// Starts declaring a pass; passes execute in insertion order.
    pub fn add_pass(&mut self, name: &str) -> (b: PassBuilder<'_>)
        requires
            old(self).wf(),
            old(self)@.passes.len() <= u32::MAX,
        ensures
            b.plan.wf(),
            b.id.0 == old(self)@.passes.len(),
            b.plan@ == old(self)@.with_pass(name@),
            b.plan.compiled() == old(self).compiled(),
            !b.plan.is_cached(),
            *final(b.plan) == *final(self),
    {
        let id: PassId = PassId(self.passes.len() as u32);
        let ghost before = self@;
        self.passes.push(
            PassNode {
                name: name.to_owned(),
                reads: Vec::new(),
                writes: Vec::new(),
                enabled: true,
            },
        );
        proof {
            let node = self.passes@.last();
            let decl = PassDecl {
                name: name@,
                reads: Seq::empty(),
                writes: Seq::empty(),
                enabled: true,
            };
            assert(node@ =~= decl);
            assert(self@.passes =~= before.passes.push(decl));
            assert forall|p: int, r: ResourceId| 0 <= p < self@.passes.len() && #[trigger] touches(
                self@.passes[p],
                r,
            ) implies r.0 < self@.resources.len() by {
                if p < before.passes.len() {
                    assert(touches(before.passes[p], r));
                }
            }
        }
        self.touch();
        PassBuilder { plan: self, id }
    }

    /// Declares a pass with all its accesses at once.
    pub fn declare_pass(
        &mut self,
        name: &str,
        reads: Vec<ResourceId>,
        writes: Vec<(ResourceId, Option<Color>)>,
    ) -> (id: PassId)
        requires
            old(self).wf(),
            old(self)@.passes.len() <= u32::MAX,
            forall|k: int|
                0 <= k < reads@.len() ==> (#[trigger] reads@[k]).0 < old(self)@.resources.len(),
            forall|k: int|
                0 <= k < writes@.len() ==> ((#[trigger] writes@[k]).0).0
                    < old(self)@.resources.len(),
        ensures
            final(self).wf(),
            id.0 == old(self)@.passes.len(),
            final(self)@ == old(self)@.with_declared(
                PassDecl { name: name@, reads: reads@, writes: writes@, enabled: true },
            ),
            final(self).compiled() == old(self).compiled(),
            !final(self).is_cached(),
    {
        let id: PassId = PassId(self.passes.len() as u32);
        let ghost before = self@;
        let ghost decl = PassDecl {
            name: name@,
            reads: reads@,
            writes: writes@,
            enabled: true,
        };
        self.passes.push(PassNode { name: name.to_owned(), reads, writes, enabled: true });
        proof {
            assert(self.passes@.last()@ =~= decl);
            assert(self@.passes =~= before.passes.push(decl));
            assert forall|p: int, r: ResourceId| 0 <= p < self@.passes.len() && #[trigger] touches(
                self@.passes[p],
                r,
            ) implies r.0 < self@.resources.len() by {
                if p < before.passes.len() {
                    assert(touches(before.passes[p], r));
                } else if reads_of(decl, r) {
                    let k = choose|k: int| 0 <= k < decl.reads.len() && decl.reads[k] == r;
                    assert(reads@[k] == r);
                } else {
                    let k = choose|k: int|
                        0 <= k < decl.writes.len() && (#[trigger] decl.writes[k]).0 == r;
                    assert(writes@[k].0 == r);
                }
            }
        }
        self.touch();
        id
    }

    /// Declares that pass `before` must come before pass `after` even where their accesses do
    /// not conflict. Affects only the levels; execution order is registration order.
    pub fn order_before(&mut self, before: PassId, after: PassId)
        requires
            old(self).wf(),
            edge_error(pass_names(old(self)@.passes), before.0 as nat, after.0 as nat) is None,
        ensures
            final(self).wf(),
            final(self)@ == old(self)@.with_edge(before, after),
            final(self).compiled() == old(self).compiled(),
            !final(self).is_cached(),
    {
        let _ = self.try_order_before(before, after);
    }

    /// Fallible [`FramePlan::order_before`]: an edge with an unknown handle, or one that does not
    /// lead forward, is refused and changes nothing.
    pub fn try_order_before(&mut self, before: PassId, after: PassId) -> (res: Result<
        (),
        OrderError,
    >)
        requires
            old(self).wf(),
        ensures
            final(self).wf(),
            match edge_error(pass_names(old(self)@.passes), before.0 as nat, after.0 as nat) {
                Some(e) => res is Err && res->Err_0@ == e && *final(self) == *old(self),
                None => {
                    &&& res is Ok
                    &&& final(self)@ == old(self)@.with_edge(before, after)
                    &&& final(self).compiled() == old(self).compiled()
                    &&& !final(self).is_cached()
                },
            },
    {
        match validate_indexed_edge(&self.passes, before.0 as usize, after.0 as usize) {
            Err(e) => Err(e),
            Ok(()) => {
                if !crate::levels::has_edge(&self.ordering, before, after) {
                    self.ordering.push((before, after));
                }
                self.touch();
                Ok(())
            },
        }
    }

    /// [`FramePlan::order_before`] by pass name (the first pass of that name).
    pub fn order_before_named(&mut self, before: &str, after: &str)
        requires
            old(self).wf(),
            exists|b: int, a: int| #[trigger]
                is_first_named(pass_names(old(self)@.passes), before@, b) && #[trigger]
                is_first_named(pass_names(old(self)@.passes), after@, a) && b < a,
        ensures
            final(self).wf(),
            forall|b: int, a: int| #[trigger]
                is_first_named(pass_names(old(self)@.passes), before@, b) && #[trigger]
                is_first_named(pass_names(old(self)@.passes), after@, a) ==> final(self)@
                == old(self)@.with_edge(PassId(b as u32), PassId(a as u32)),
            final(self).compiled() == old(self).compiled(),
            !final(self).is_cached(),
    {
        proof {
            let names = pass_names(self@.passes);
            let (b, a) = choose|b: int, a: int| #[trigger]
                is_first_named(names, before@, b) && #[trigger] is_first_named(names, after@, a)
                    && b < a;
            assert(names.contains(names[b]) && names.contains(names[a]));
        }
        let _ = self.try_order_before_named(before, after);
    }

    /// Fallible [`FramePlan::order_before_named`].
    pub fn try_order_before_named(&mut self, before: &str, after: &str) -> (res: Result<
        (),
        OrderError,
    >)
        requires
            old(self).wf(),
        ensures
            final(self).wf(),
            ({
                let names = pass_names(old(self)@.passes);
                &&& !names.contains(before@) ==> res is Err && res->Err_0@ is UnknownNode
                    && res->Err_0@->name == before@ && *final(self) == *old(self)
                &&& names.contains(before@) && !names.contains(after@) ==> res is Err
                    && res->Err_0@ is UnknownNode && res->Err_0@->name == after@ && *final(self)
                    == *old(self)
                &&& forall|b: int, a: int| #[trigger]
                    is_first_named(names, before@, b) && #[trigger] is_first_named(
                        names,
                        after@,
                        a,
                    ) ==> match edge_error(names, b as nat, a as nat) {
                        Some(e) => res is Err && res->Err_0@ == e && *final(self) == *old(self),
                        None => {
                            &&& res is Ok
                            &&& final(self)@ == old(self)@.with_edge(
                                PassId(b as u32),
                                PassId(a as u32),
                            )
                            &&& final(self).compiled() == old(self).compiled()
                            &&& !final(self).is_cached()
                        },
                    }
            }),
    {
        let ghost names = pass_names(self@.passes);
        match resolve_named_edge(&self.passes, before, after) {
            Err(e) => {
                proof {
                    assert forall|b: int, a: int| #[trigger]
                        is_first_named(names, before@, b) && #[trigger] is_first_named(
                        names,
                        after@,
                        a,
                    ) implies false by {
                        assert(names.contains(names[b]) && names.contains(names[a]));
                    }
                }
                Err(e)
            },
            Ok((b, a)) => {
                proof {
                    assert(names.contains(names[b as int]) && names.contains(names[a as int]));
                    assert forall|b2: int, a2: int| #[trigger]
                        is_first_named(names, before@, b2) && #[trigger] is_first_named(
                        names,
                        after@,
                        a2,
                    ) implies b2 == b && a2 == a by {
                        assert(names[b2] == before@ && names[b as int] == before@);
                        assert(names[a2] == after@ && names[a as int] == after@);
                    }
                }
                self.try_order_before(PassId(b as u32), PassId(a as u32))
            },
        }
    }

    /// Enables or disables a pass: a disabled pass is dropped from the layout, and its resources
    /// get no slots unless used elsewhere.
    pub fn set_pass_enabled(&mut self, id: PassId, enabled: bool)
        requires
            old(self).wf(),
            id.0 < old(self)@.passes.len(),
        ensures
            final(self).wf(),
            final(self)@ == old(self)@.with_enabled(id, enabled),
            final(self).compiled() == old(self).compiled(),
            !final(self).is_cached(),
    {
        let ghost before = self@;
        self.passes[id.0 as usize].enabled = enabled;
        proof {
            let i = id.0 as int;
            let decl = PassDecl { enabled, ..before.passes[i] };
            assert(self.passes@[i]@ =~= decl);
            assert(self@.passes =~= before.passes.update(i, decl));
            assert forall|p: int, r: ResourceId| 0 <= p < self@.passes.len() && #[trigger] touches(
                self@.passes[p],
                r,
            ) implies r.0 < self@.resources.len() by {
                assert(touches(before.passes[p], r));
            }
        }
        self.touch();
    }

    /// Checks the first-touch rule: whether the declarations compile, and which read breaks the
    /// rule first if they do not.
    pub fn check(&self) -> (res: Result<(), ReadBeforeWrite>)
        requires
            self.wf(),
        ensures
            res is Ok <==> self@.ok(),
            res is Err ==> exists|i: int, k: int| #[trigger]
                is_first_offence(
                    self@.resources,
                    frame_of(self@.passes),
                    res->Err_0,
                    i,
                    k,
                ),
    {
        check_first_touch(&self.resources, &self.passes)
    }

    /// Borrowed declarations for a pool.
    pub fn pool_input(&self) -> (input: PoolInput<'_>)
        ensures
            resource_decls(input.resources@) == self@.resources,
            pass_decls(input.passes@) == self@.passes,
            input.ordering@ == self@.ordering,
            input.surface_size == self@.surface_size,
            input.budget == self@.budget,
    {
        PoolInput {
            resources: &self.resources,
            passes: &self.passes,
            ordering: &self.ordering,
            surface_size: self.surface_size,
            budget: self.budget,
        }
    }

    /// The frame layout, compiled only if the declarations changed since the last call.
    pub fn layout(&mut self) -> (layout: &FrameLayout)
        requires
            old(self).wf(),
            old(self)@.ok(),
            old(self)@.fits_budget(),
        ensures
            final(self).wf(),
            final(self)@ == old(self)@,
            old(self)@.compiles_to(*layout),
            final(self).is_cached(),
            final(self).compiled() == if old(self).is_cached() {
                old(self).compiled()
            } else {
                old(self).compiled().wrapping_add(1)
            },
    {
        match self.try_layout() {
            Ok(layout) => layout,
            Err(_) => {
                assert(false);
                vstd::pervasive::unreached()
            },
        }
    }

    /// Like [`FramePlan::layout`], but a budget violation is returned. Nothing is cached in
    /// that case.
    pub fn try_layout(&mut self) -> (res: Result<&FrameLayout, BudgetExceeded>)
        requires
            old(self).wf(),
            old(self)@.ok(),
        ensures
            final(self).wf(),
            final(self)@ == old(self)@,
            final(self).compiled() == if old(self).is_cached() {
                old(self).compiled()
            } else {
                old(self).compiled().wrapping_add(1)
            },
            res is Ok <==> old(self)@.fits_budget(),
            match res {
                Ok(layout) => {
                    &&& old(self)@.compiles_to(*layout)
                    &&& old(self)@.budget.admits(*layout)
                    &&& final(self).is_cached()
                },
                Err(e) => {
                    &&& !final(self).is_cached()
                    &&& exists|layout: FrameLayout| #[trigger]
                        old(self)@.compiles_to(layout) && !old(self)@.budget.admits(layout)
                            && exceeds(e, layout, old(self)@.budget.limit->0)
                },
            },
    {
        match self.try_shared_layout() {
            Err(e) => Err(e),
            Ok(_) => match self.pool.cached() {
                Some(layout) => Ok(layout),
                None => {
                    assert(false);
                    vstd::pervasive::unreached()
                },
            },
        }
    }

    /// Like [`FramePlan::try_layout`], with the layout shared.
    pub fn try_shared_layout(&mut self) -> (res: Result<Arc<FrameLayout>, BudgetExceeded>)
        requires
            old(self).wf(),
            old(self)@.ok(),
        ensures
            final(self).wf(),
            final(self)@ == old(self)@,
            final(self).compiled() == if old(self).is_cached() {
                old(self).compiled()
            } else {
                old(self).compiled().wrapping_add(1)
            },
            res is Ok <==> old(self)@.fits_budget(),
            match res {
                Ok(layout) => {
                    &&& old(self)@.compiles_to(*layout)
                    &&& old(self)@.budget.admits(*layout)
                    &&& final(self).is_cached()
                },
                Err(e) => {
                    &&& !final(self).is_cached()
                    &&& exists|layout: FrameLayout| #[trigger]
                        old(self)@.compiles_to(layout) && !old(self)@.budget.admits(layout)
                            && exceeds(e, layout, old(self)@.budget.limit->0)
                },
            },
    {
        let generation: u64 = self.generation;
        let input = PoolInput {
            resources: &self.resources,
            passes: &self.passes,
            ordering: &self.ordering,
            surface_size: self.surface_size,
            budget: self.budget,
        };
        match self.pool.ensure(generation, &input) {
            Err(e) => {
                proof {
                    let layout = choose|layout: FrameLayout| #[trigger]
                        input.compiles_to(layout) && !input.budget.admits(layout) && exceeds(
                            e,
                            layout,
                            input.budget.limit->0,
                        );
                    assert(old(self)@.compiles_to(layout));
                    one_layout_decides_the_budget(old(self)@, layout);
                }
                Err(e)
            },
            Ok(layout) => {
                proof {
                    one_layout_decides_the_budget(old(self)@, (self.pool.cache()->0).1);
                }
                Ok(layout)
            },
        }
    }

    /// Snapshot of the layout as an owned value.
    pub fn build(&mut self) -> (layout: FrameLayout)
        requires
            old(self).wf(),
            old(self)@.ok(),
            old(self)@.fits_budget(),
        ensures
            final(self).wf(),
            final(self)@ == old(self)@,
            old(self)@.compiles_to(layout),
            final(self).is_cached(),
            final(self).compiled() == if old(self).is_cached() {
                old(self).compiled()
            } else {
                old(self).compiled().wrapping_add(1)
            },
    {
        self.layout().clone()
    }

    /// Forces the next [`FramePlan::layout`] to recompile.
    pub fn invalidate(&mut self)
        requires
            old(self).wf(),
        ensures
            final(self).wf(),
            final(self)@ == old(self)@.touched(),
            final(self).compiled() == old(self).compiled(),
            !final(self).is_cached(),
    {
        self.touch();
    }

    /// How many times the layout has been compiled: stays flat while the cache holds.
    pub fn layout_computations(&self) -> (n: u32)
        ensures
            n == self.compiled(),
    {
        self.pool.layout_computations()
    }
}

/// Specification of an externally backed output.
pub open spec fn output_spec() -> TextureSpec {
    TextureSpec {
        format: TextureFormat::Rgba8Unorm,
        samples: 1,
        size: SizePolicy::MatchSurface,
    }
}

/// Builder for declaring a pass.
#[derive(Debug)]
pub struct PassBuilder<'a> {
    pub plan: &'a mut FramePlan,
    pub id: PassId,
}

impl<'a> PassBuilder<'a> {
    /// The builder stands on a pass of its plan.
    pub open spec fn wf(self) -> bool {
        self.plan.wf() && self.id.0 < self.plan@.passes.len()
    }

    /// Id of the pass being declared.
    pub fn id(&self) -> (id: PassId)
        ensures
            id == self.id,
    {
        self.id
    }

    /// Declares a resource as read by the pass.
    pub fn read(self, id: ResourceId) -> (b: PassBuilder<'a>)
        requires
            self.wf(),
            id.0 < self.plan@.resources.len(),
        ensures
            b.wf(),
            b.id == self.id,
            b.plan@ == old(self.plan)@.with_read(self.id, id),
            b.plan.compiled() == old(self.plan).compiled(),
            !b.plan.is_cached(),
            *final(b.plan) == *final(self.plan),
    {
        let b = self;
        let ghost before = b.plan@;
        let i: usize = b.id.0 as usize;
        b.plan.passes[i].reads.push(id);
        proof {
            let pass = before.passes[i as int];
            let decl = PassDecl { reads: pass.reads.push(id), ..pass };
            assert(b.plan.passes@[i as int]@ =~= decl);
            assert(b.plan@.passes =~= before.passes.update(i as int, decl));
            assert forall|p: int, r: ResourceId| 0 <= p < b.plan@.passes.len()
                && #[trigger] touches(b.plan@.passes[p], r) implies r.0
                < b.plan@.resources.len() by {
                if p == i {
                    if decl.reads.contains(r) && r != id {
                        let k = choose|k: int| 0 <= k < decl.reads.len() && decl.reads[k] == r;
                        assert(pass.reads[k] == r);
                        assert(touches(before.passes[p], r));
                    } else if r != id {
                        assert(writes_of(pass, r));
                        assert(touches(before.passes[p], r));
                    }
                } else {
                    assert(touches(before.passes[p], r));
                }
            }
        }
        b.plan.touch();
        b
    }

    fn declare_write(self, id: ResourceId, clear: Option<Color>) -> (b: PassBuilder<'a>)
        requires
            self.wf(),
            id.0 < self.plan@.resources.len(),
        ensures
            b.wf(),
            b.id == self.id,
            b.plan@ == old(self.plan)@.with_write(self.id, id, clear),
            b.plan.compiled() == old(self.plan).compiled(),
            !b.plan.is_cached(),
            *final(b.plan) == *final(self.plan),
    {
        let b = self;
        let ghost before = b.plan@;
        let i: usize = b.id.0 as usize;
        b.plan.passes[i].writes.push((id, clear));
        proof {
            let pass = before.passes[i as int];
            let decl = PassDecl { writes: pass.writes.push((id, clear)), ..pass };
            assert(b.plan.passes@[i as int]@ =~= decl);
            assert(b.plan@.passes =~= before.passes.update(i as int, decl));
            assert forall|p: int, r: ResourceId| 0 <= p < b.plan@.passes.len()
                && #[trigger] touches(b.plan@.passes[p], r) implies r.0
                < b.plan@.resources.len() by {
                if p == i {
                    if writes_of(decl, r) && r != id {
                        let k = choose|k: int|
                            0 <= k < decl.writes.len() && (#[trigger] decl.writes[k]).0 == r;
                        assert(pass.writes[k].0 == r);
                        assert(touches(before.passes[p], r));
                    } else if r != id {
                        assert(reads_of(pass, r));
                        assert(touches(before.passes[p], r));
                    }
                } else {
                    assert(touches(before.passes[p], r));
                }
            }
        }
        b.plan.touch();
        b
    }

    /// Declares a resource as written by the pass (no clear).
    pub fn write(self, id: ResourceId) -> (b: PassBuilder<'a>)
        requires
            self.wf(),
            id.0 < self.plan@.resources.len(),
        ensures
            b.wf(),
            b.id == self.id,
            b.plan@ == old(self.plan)@.with_write(self.id, id, None),
            b.plan.compiled() == old(self.plan).compiled(),
            !b.plan.is_cached(),
            *final(b.plan) == *final(self.plan),
    {
        self.declare_write(id, None)
    }

    /// Declares a resource as written by the pass with a clear value.
    pub fn write_clear(self, id: ResourceId, clear: Color) -> (b: PassBuilder<'a>)
        requires
            self.wf(),
            id.0 < self.plan@.resources.len(),
        ensures
            b.wf(),
            b.id == self.id,
            b.plan@ == old(self.plan)@.with_write(self.id, id, Some(clear)),
            b.plan.compiled() == old(self.plan).compiled(),
            !b.plan.is_cached(),
            *final(b.plan) == *final(self.plan),
    {
        self.declare_write(id, Some(clear))
    }
}

} // verus!
