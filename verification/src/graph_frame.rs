//! The 3D frame wired by hand: the same resources and passes as
//! [`crate::frame_exec::RenderFrame3D`], declared imperatively on a plan.
use std::sync::Arc;
use vstd::prelude::*;
#[allow(unused_imports)]
use vstd::string::*;

use crate::declarations::{Color, PassId, ResourceId, SizePolicy, TextureFormat, TextureSpec};
#[allow(unused_imports)]
use crate::declarations::{black, transparent, white, PassDecl};
#[allow(unused_imports)]
use crate::frame_exec::{
    over_budget, pool_change_ok, pooled_bytes, prepared_pool, with_external, ExecutorView,
};
pub use crate::frame_exec::{FrameExecutor, FrameIds, PassViews, PoolChange, Technique};
use crate::frame_plan::FramePlan;
#[allow(unused_imports)]
use crate::frame_plan::PlanView;
#[allow(unused_imports)]
use crate::frame_wiring::{
    bloom_access, bloom_passes, composite_access, deferred_passes, forward_access, frame_bodies,
    frame_ids, frame_passes, frame_resources, gbuffer_access, keyed_pass, layer_passes,
    lighting_access,
};
use crate::layout::GraphLayout;
use crate::system::PassBody;
#[allow(unused_imports)]
use crate::transient_pool::clamped;
use crate::transient_pool::{Budget, BudgetExceeded, FrameLayout};

verus! {

/// Executes a layout: the executor of the frame.
pub type GraphExecutor = FrameExecutor;

/// Resource handles of the graph.
pub type GraphIds = FrameIds;

fn surface_texture(format: TextureFormat) -> (s: TextureSpec)
    ensures
        s == crate::frame_passes::surface_spec(format),
{
    TextureSpec { format, samples: 1, size: SizePolicy::MatchSurface }
}

fn fraction_texture(format: TextureFormat, divisor: u32) -> (s: TextureSpec)
    ensures
        s == crate::frame_passes::fraction_spec(format, divisor),
{
    TextureSpec { format, samples: 1, size: SizePolicy::Fraction(divisor) }
}

/// Declares the twelve resources of the frame.
fn declare_resources(plan: &mut FramePlan, surface_format: TextureFormat) -> (ids: GraphIds)
    requires
        old(plan).wf(),
        old(plan)@.resources.len() == 0,
    ensures
        final(plan).wf(),
        ids == frame_ids(),
        final(plan)@.resources == frame_resources(surface_format),
        final(plan)@.passes == old(plan)@.passes,
        final(plan)@.ordering == old(plan)@.ordering,
        final(plan)@.surface_size == old(plan)@.surface_size,
        final(plan)@.budget == old(plan)@.budget,
        final(plan).compiled() == old(plan).compiled(),
        !final(plan).is_cached(),
{
    let ids = FrameIds {
        albedo: plan.create_resource("albedo", surface_texture(TextureFormat::Rgba8Unorm)),
        normal: plan.create_resource("normal", surface_texture(TextureFormat::Rg16Float)),
        material_id: plan.create_resource(
            "material_id",
            surface_texture(TextureFormat::R32Uint),
        ),
        world_position: plan.create_resource(
            "world_position",
            surface_texture(TextureFormat::Rg16Float),
        ),
        material_params: plan.create_resource(
            "material_params",
            surface_texture(TextureFormat::Rgba16Float),
        ),
        depth: plan.create_resource("depth", surface_texture(TextureFormat::Depth32Float)),
        hdr: plan.create_resource("hdr", surface_texture(surface_format)),
        hdr_fwd: plan.create_resource("hdr_fwd", surface_texture(TextureFormat::Rgba16Float)),
        target: plan.external_output("target"),
        bloom0: plan.create_resource(
            "bloom0",
            fraction_texture(TextureFormat::Rgba16Float, 2),
        ),
        bloom1: plan.create_resource(
            "bloom1",
            fraction_texture(TextureFormat::Rgba16Float, 4),
        ),
        bloom2: plan.create_resource(
            "bloom2",
            fraction_texture(TextureFormat::Rgba16Float, 8),
        ),
    };
    assert(plan@.resources =~= frame_resources(surface_format));
    ids
}

/// What declaring passes keeps, and the passes that it appends.
spec fn appended(was: PlanView, now: PlanView, passes: Seq<PassDecl>) -> bool {
    &&& now.resources == was.resources
    &&& now.ordering == was.ordering
    &&& now.surface_size == was.surface_size
    &&& now.budget == was.budget
    &&& now.passes == was.passes + passes
}

/// Declares the deferred passes.
fn declare_deferred(plan: &mut FramePlan, ids: &GraphIds)
    requires
        old(plan).wf(),
        *ids == frame_ids(),
        old(plan)@.resources.len() == 12,
        old(plan)@.passes.len() < 32,
    ensures
        final(plan).wf(),
        appended(old(plan)@, final(plan)@, deferred_passes()),
        final(plan).compiled() == old(plan).compiled(),
        !final(plan).is_cached(),
{
    let ghost was = plan@;
    plan.add_pass("gbuffer").write(ids.albedo).write(ids.normal).write(ids.material_id).write(
        ids.world_position,
    ).write(ids.material_params).write(ids.depth);
    plan.add_pass("lighting").read(ids.albedo).read(ids.normal).read(ids.material_id).read(
        ids.world_position,
    ).read(ids.material_params).read(ids.depth).write_clear(ids.hdr, Color::black());
    proof {
        let n = was.passes.len() as int;
        let g = keyed_pass("gbuffer"@, gbuffer_access());
        let l = keyed_pass("lighting"@, lighting_access());
        assert(plan@.passes[n].writes =~= g.writes);
        assert(plan@.passes[n].reads =~= g.reads);
        assert(plan@.passes[n + 1].reads =~= l.reads);
        assert(plan@.passes[n + 1].writes =~= l.writes);
        assert(plan@.passes =~= was.passes + deferred_passes());
    }
}

/// Declares the forward pass.
fn declare_forward(plan: &mut FramePlan, ids: &GraphIds, technique: Technique)
    requires
        old(plan).wf(),
        *ids == frame_ids(),
        old(plan)@.resources.len() == 12,
        old(plan)@.passes.len() < 32,
    ensures
        final(plan).wf(),
        appended(
            old(plan)@,
            final(plan)@,
            seq![keyed_pass("forward"@, forward_access(technique))],
        ),
        final(plan).compiled() == old(plan).compiled(),
        !final(plan).is_cached(),
{
    let ghost was = plan@;
    if technique == Technique::Forward {
        plan.add_pass("forward").write_clear(ids.depth, Color::white()).write_clear(
            ids.hdr_fwd,
            Color::transparent(),
        );
    } else {
        plan.add_pass("forward").read(ids.depth).write_clear(ids.hdr_fwd, Color::transparent());
    }
    proof {
        let n = was.passes.len() as int;
        let f = keyed_pass("forward"@, forward_access(technique));
        assert(plan@.passes[n].writes =~= f.writes);
        assert(plan@.passes[n].reads =~= f.reads);
        assert(plan@.passes =~= was.passes + seq![f]);
    }
}

/// Declares a bloom pass from one level to the next.
fn declare_level(
    plan: &mut FramePlan,
    name: &str,
    from: ResourceId,
    to: ResourceId,
    clear: bool,
)
    requires
        old(plan).wf(),
        from.0 < old(plan)@.resources.len(),
        to.0 < old(plan)@.resources.len(),
        old(plan)@.passes.len() < 64,
    ensures
        final(plan).wf(),
        appended(
            old(plan)@,
            final(plan)@,
            seq![
                keyed_pass(
                    name@,
                    bloom_access(
                        from.0,
                        to.0,
                        if clear {
                            Some(black())
                        } else {
                            None
                        },
                    ),
                ),
            ],
        ),
        final(plan).compiled() == old(plan).compiled(),
        !final(plan).is_cached(),
{
    let ghost was = plan@;
    if clear {
        plan.add_pass(name).read(from).write_clear(to, Color::black());
    } else {
        plan.add_pass(name).read(from).write(to);
    }
    proof {
        let n = was.passes.len() as int;
        let p = keyed_pass(
            name@,
            bloom_access(
                from.0,
                to.0,
                if clear {
                    Some(black())
                } else {
                    None
                },
            ),
        );
        assert(plan@.passes[n].writes =~= p.writes);
        assert(plan@.passes[n].reads =~= p.reads);
        assert(plan@.passes =~= was.passes + seq![p]);
    }
}

/// Declares the bloom chain.
fn declare_bloom(plan: &mut FramePlan, ids: &GraphIds, technique: Technique)
    requires
        old(plan).wf(),
        *ids == frame_ids(),
        old(plan)@.resources.len() == 12,
        old(plan)@.passes.len() < 32,
    ensures
        final(plan).wf(),
        appended(old(plan)@, final(plan)@, bloom_passes(technique)),
        final(plan).compiled() == old(plan).compiled(),
        !final(plan).is_cached(),
{
    let ghost was = plan@;
    let input: ResourceId = if technique.has_deferred() {
        ids.hdr
    } else {
        ids.hdr_fwd
    };
    declare_level(plan, "bloom_down0", input, ids.bloom0, true);
    declare_level(plan, "bloom_down1", ids.bloom0, ids.bloom1, true);
    declare_level(plan, "bloom_down2", ids.bloom1, ids.bloom2, true);
    declare_level(plan, "bloom_up1", ids.bloom2, ids.bloom1, false);
    declare_level(plan, "bloom_up0", ids.bloom1, ids.bloom0, false);
    assert(plan@.passes =~= was.passes + bloom_passes(technique));
}

/// Declares the composite pass.
fn declare_composite(plan: &mut FramePlan, ids: &GraphIds, technique: Technique, bloom: bool)
    requires
        old(plan).wf(),
        *ids == frame_ids(),
        old(plan)@.resources.len() == 12,
        old(plan)@.passes.len() < 64,
    ensures
        final(plan).wf(),
        appended(
            old(plan)@,
            final(plan)@,
            seq![keyed_pass("composite"@, composite_access(technique, bloom))],
        ),
        final(plan).compiled() == old(plan).compiled(),
        !final(plan).is_cached(),
{
    let ghost was = plan@;
    let mut reads: Vec<ResourceId> = Vec::new();
    if technique.has_deferred() {
        reads.push(ids.hdr);
    }
    if technique.has_forward() {
        reads.push(ids.hdr_fwd);
    }
    if bloom {
        reads.push(ids.bloom0);
    }
    let mut writes: Vec<(ResourceId, Option<Color>)> = Vec::new();
    writes.push((ids.target, None));
    let _ = plan.declare_pass("composite", reads, writes);
    proof {
        let n = was.passes.len() as int;
        let p = keyed_pass("composite"@, composite_access(technique, bloom));
        assert(plan@.passes[n].writes =~= p.writes);
        assert(plan@.passes[n].reads =~= p.reads);
        assert(plan@.passes =~= was.passes + seq![p]);
    }
}

/// The plan declares the frame of the technique. The generation is left open: a counter that only
/// changes.
pub open spec fn graph_wired(
    v: PlanView,
    format: TextureFormat,
    size: (u32, u32),
    technique: Technique,
    bloom: bool,
) -> bool {
    &&& v.resources == frame_resources(format)
    &&& v.passes == frame_passes(technique, bloom)
    &&& v.ordering.len() == 0
    &&& v.surface_size == size
    &&& v.budget.limit is None
}

/// Graph-driven 3D frame, wired by hand.
#[derive(Debug)]
pub struct RenderGraph3D {
    graph: FramePlan,
    executor: GraphExecutor,
    parallel_recording: bool,
    ids: GraphIds,
    bloom: bool,
    technique: Technique,
}

/// View of a [`RenderGraph3D`].
#[verifier::ext_equal]
pub struct Graph3DView {
    pub graph: PlanView,
    pub executor: ExecutorView,
    pub parallel_recording: bool,
    pub ids: GraphIds,
    pub bloom: bool,
    pub technique: Technique,
}

impl Graph3DView {
    /// With a frame started on a layout: the pool prepared for it and the target noted as set.
    pub open spec fn begun(self, layout: FrameLayout) -> Graph3DView {
        Graph3DView {
            executor: ExecutorView {
                pool: prepared_pool(self.executor, layout),
                surface_size: Some(layout.surface_size),
                externals: with_external(self.executor.externals, self.ids.target),
                ..self.executor
            },
            ..self
        }
    }
}

impl View for RenderGraph3D {
    type V = Graph3DView;

    closed spec fn view(&self) -> Graph3DView {
        Graph3DView {
            graph: self.graph@,
            executor: self.executor@,
            parallel_recording: self.parallel_recording,
            ids: self.ids,
            bloom: self.bloom,
            technique: self.technique,
        }
    }
}

impl RenderGraph3D {
    /// The plan is well formed.
    pub closed spec fn wf(self) -> bool {
        self.graph.wf()
    }

    /// A layout of the plan is cached.
    pub closed spec fn is_cached(self) -> bool {
        self.graph.is_cached()
    }

    /// How often the plan has compiled its layout.
    pub closed spec fn compiled(self) -> u32 {
        self.graph.compiled()
    }

    /// The hybrid frame without bloom.
    pub fn new(surface_format: TextureFormat, surface_size: (u32, u32)) -> (g: RenderGraph3D)
        ensures
            g.wf(),
            graph_wired(g@.graph, surface_format, surface_size, Technique::Hybrid, false),
            g@.ids == frame_ids(),
            g@.technique == Technique::Hybrid,
            !g@.bloom,
            !g@.parallel_recording,
            g@.executor.pool.len() == 0,
            g@.executor.externals.len() == 0,
            g@.executor.surface_size is None,
            g@.executor.cache is None,
            g@.executor.compiled == 0,
            g.compiled() == 0,
            !g.is_cached(),
    {
        RenderGraph3D::new_with(surface_format, surface_size, Technique::Hybrid, false)
    }

    /// The hybrid frame with the bloom cascade.
    pub fn new_with_bloom(surface_format: TextureFormat, surface_size: (u32, u32)) -> (g:
        RenderGraph3D)
        ensures
            g.wf(),
            graph_wired(g@.graph, surface_format, surface_size, Technique::Hybrid, true),
            g@.ids == frame_ids(),
            g@.technique == Technique::Hybrid,
            g@.bloom,
            !g@.parallel_recording,
            g@.executor.pool.len() == 0,
            g@.executor.externals.len() == 0,
            g@.executor.surface_size is None,
            g@.executor.cache is None,
            g@.executor.compiled == 0,
            g.compiled() == 0,
            !g.is_cached(),
    {
        RenderGraph3D::new_with(surface_format, surface_size, Technique::Hybrid, true)
    }

    /// The frame of a technique with optional bloom.
    pub fn new_with(
        surface_format: TextureFormat,
        surface_size: (u32, u32),
        technique: Technique,
        bloom: bool,
    ) -> (g: RenderGraph3D)
        ensures
            g.wf(),
            graph_wired(g@.graph, surface_format, surface_size, technique, bloom),
            g@.ids == frame_ids(),
            g@.technique == technique,
            g@.bloom == bloom,
            !g@.parallel_recording,
            g@.executor.pool.len() == 0,
            g@.executor.externals.len() == 0,
            g@.executor.surface_size is None,
            g@.executor.cache is None,
            g@.executor.compiled == 0,
            g.compiled() == 0,
            !g.is_cached(),
    {
        let mut graph = FramePlan::new(surface_size);
        let ids = declare_resources(&mut graph, surface_format);
        if technique.has_deferred() {
            declare_deferred(&mut graph, &ids);
        }
        if technique.has_forward() {
            declare_forward(&mut graph, &ids, technique);
        }
        assert(graph@.passes =~= layer_passes(technique));
        if bloom {
            declare_bloom(&mut graph, &ids, technique);
        }
        declare_composite(&mut graph, &ids, technique, bloom);
        assert(graph@.passes =~= frame_passes(technique, bloom));
        RenderGraph3D {
            graph,
            executor: FrameExecutor::new(),
            parallel_recording: false,
            ids,
            bloom,
            technique,
        }
    }

    /// Resource handles of this graph.
    pub fn ids(&self) -> (ids: GraphIds)
        ensures
            ids == self@.ids,
    {
        self.ids
    }

    /// The technique this graph was wired for.
    pub fn technique(&self) -> (t: Technique)
        ensures
            t == self@.technique,
    {
        self.technique
    }

    /// Whether the bloom cascade is wired into this graph.
    pub fn bloom_enabled(&self) -> (yes: bool)
        ensures
            yes == self@.bloom,
    {
        self.bloom
    }

    /// Read access to the plan.
    pub fn graph(&self) -> (g: &FramePlan)
        ensures
            g@ == self@.graph,
            g.wf() == self.wf(),
            g.is_cached() == self.is_cached(),
            g.compiled() == self.compiled(),
    {
        &self.graph
    }

    /// Mutable access to the plan. Any mutation invalidates the layout cache.
    pub fn graph_mut(&mut self) -> (g: &mut FramePlan)
        ensures
            g@ == old(self)@.graph,
            g.wf() == old(self).wf(),
            g.is_cached() == old(self).is_cached(),
            g.compiled() == old(self).compiled(),
            final(self)@ == (Graph3DView { graph: final(g)@, ..old(self)@ }),
            final(self).wf() == final(g).wf(),
            final(self).is_cached() == final(g).is_cached(),
            final(self).compiled() == final(g).compiled(),
    {
        &mut self.graph
    }

    /// Updates the surface size before the next frame.
    pub fn set_surface_size(&mut self, width: u32, height: u32)
        requires
            old(self).wf(),
        ensures
            final(self).wf(),
            final(self)@ == (Graph3DView {
                graph: PlanView {
                    surface_size: (width, height),
                    ..old(self)@.graph.touched()
                },
                ..old(self)@
            }),
            !final(self).is_cached(),
            final(self).compiled() == old(self).compiled(),
    {
        self.graph.set_surface_size(width, height);
    }

    /// Enables or disables parallel command recording. Off by default.
    pub fn set_parallel_recording(&mut self, parallel: bool)
        ensures
            final(self)@ == (Graph3DView { parallel_recording: parallel, ..old(self)@ }),
            final(self).wf() == old(self).wf(),
            final(self).is_cached() == old(self).is_cached(),
            final(self).compiled() == old(self).compiled(),
    {
        self.parallel_recording = parallel;
    }

    /// Whether parallel recording is on.
    pub fn parallel_recording(&self) -> (yes: bool)
        ensures
            yes == self@.parallel_recording,
    {
        self.parallel_recording
    }

    /// Sets the GPU memory budget of the transient pool.
    pub fn set_budget(&mut self, budget: Budget)
        requires
            old(self).wf(),
        ensures
            final(self).wf(),
            final(self)@ == (Graph3DView {
                graph: PlanView { budget, ..old(self)@.graph.touched() },
                ..old(self)@
            }),
            !final(self).is_cached(),
            final(self).compiled() == old(self).compiled(),
    {
        self.graph.set_budget(budget);
    }

    /// Textual layout dump (uses the layout cache).
    pub fn layout_dump(&mut self) -> (out: String)
        requires
            old(self).wf(),
            old(self)@.graph.ok(),
            old(self)@.graph.fits_budget(),
        ensures
            final(self).wf(),
            final(self)@ == old(self)@,
            final(self).is_cached(),
            final(self).compiled() == if old(self).is_cached() {
                old(self).compiled()
            } else {
                old(self).compiled().wrapping_add(1)
            },
            exists|layout: FrameLayout| #[trigger]
                old(self)@.graph.compiles_to(layout) && out@ == layout.dump_text(),
    {
        self.graph.layout().debug_dump()
    }

    /// Starts a frame: the layout of the plan (compiled only if the plan changed), the target
    /// noted as set, and the pool prepared. Says which textures the caller has to create.
    pub fn begin_frame(&mut self) -> (res: (Arc<FrameLayout>, PoolChange))
        requires
            old(self).wf(),
            old(self)@.graph.ok(),
            old(self)@.graph.fits_budget(),
        ensures
            final(self).wf(),
            old(self)@.graph.compiles_to(*res.0),
            final(self)@ == old(self)@.begun(*res.0),
            pool_change_ok(old(self)@.executor, *res.0, res.1),
            final(self).is_cached(),
            final(self).compiled() == if old(self).is_cached() {
                old(self).compiled()
            } else {
                old(self).compiled().wrapping_add(1)
            },
    {
        match self.try_begin_frame() {
            Ok(res) => res,
            Err(_) => {
                assert(false);
                vstd::pervasive::unreached()
            },
        }
    }

    /// Like [`RenderGraph3D::begin_frame`], but a budget violation is returned. No frame is
    /// started in that case.
    pub fn try_begin_frame(&mut self) -> (res: Result<
        (Arc<FrameLayout>, PoolChange),
        BudgetExceeded,
    >)
        requires
            old(self).wf(),
            old(self)@.graph.ok(),
        ensures
            final(self).wf(),
            final(self).compiled() == if old(self).is_cached() {
                old(self).compiled()
            } else {
                old(self).compiled().wrapping_add(1)
            },
            res is Ok <==> old(self)@.graph.fits_budget(),
            match res {
                Ok((layout, change)) => {
                    &&& old(self)@.graph.compiles_to(*layout)
                    &&& final(self)@ == old(self)@.begun(*layout)
                    &&& pool_change_ok(old(self)@.executor, *layout, change)
                    &&& final(self).is_cached()
                },
                Err(e) => {
                    &&& over_budget(old(self)@.graph, e)
                    &&& final(self)@ == old(self)@
                    &&& !final(self).is_cached()
                },
            },
    {
        match self.graph.try_shared_layout() {
            Err(e) => Err(e),
            Ok(layout) => {
                self.executor.set_external_view(self.ids.target);
                let change = self.executor.ensure_pool(&layout);
                Ok((layout, change))
            },
        }
    }

    /// One resolver per pass, in the given order of pass positions.
    pub fn pass_views<'a>(&'a self, layout: &'a GraphLayout, order: &Vec<usize>) -> (views: Vec<
        PassViews<'a>,
    >)
        ensures
            views@.len() == order@.len(),
            forall|i: int|
                0 <= i < views@.len() ==> (#[trigger] views@[i]).index == order@[i]
                    && views@[i].layout == layout && views@[i].pool@ == self@.executor.pool
                    && views@[i].externals@ == self@.executor.externals,
    {
        self.executor.pass_views(layout, order)
    }

    /// What a pass of the wired frame does. Nothing for a pass that was added later.
    pub fn pass_body(&self, id: PassId) -> (body: Option<PassBody>)
        ensures
            body == if id.0 < frame_bodies(self@.technique, self@.bloom).len() {
                frame_bodies(self@.technique, self@.bloom)[id.0 as int]
            } else {
                None
            },
    {
        let deferred = self.technique.has_deferred();
        let forward = self.technique.has_forward();
        let lit: u32 = if deferred {
            2
        } else {
            0
        };
        let layers: u32 = if forward {
            lit + 1
        } else {
            lit
        };
        let glow: u32 = if self.bloom {
            5
        } else {
            0
        };
        if id.0 < lit {
            if id.0 == 0 {
                Some(PassBody::Gbuffer)
            } else {
                Some(PassBody::Lighting)
            }
        } else if id.0 < layers {
            Some(PassBody::Forward { owns_depth: self.technique == Technique::Forward })
        } else if id.0 < layers + glow {
            let step: u32 = id.0 - layers;
            if step == 0 {
                Some(PassBody::BloomBright { from_forward: !deferred })
            } else if step < 3 {
                Some(PassBody::BloomDown)
            } else {
                Some(PassBody::BloomUp)
            }
        } else if id.0 == layers + glow {
            Some(
                PassBody::Composite {
                    shader_mode: self.technique.composite_mode(),
                    bloom: self.bloom,
                },
            )
        } else {
            None
        }
    }

    /// Number of pool textures.
    pub fn pool_slots(&self) -> (n: usize)
        ensures
            n == self@.executor.pool.len(),
    {
        self.executor.slots_len()
    }

    /// Bytes of the pool textures, saturating.
    pub fn texture_budget(&self) -> (n: u64)
        ensures
            n == clamped(pooled_bytes(self@.executor.pool, self@.executor.pool.len() as int)),
    {
        self.executor.texture_budget()
    }
}

} // verus!
