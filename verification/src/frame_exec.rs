//! Frame execution: which pool textures a layout needs, which texture backs a resource on a
//! pass, in which order passes run and are submitted. The GPU objects live with the caller.
use std::sync::Arc;
use vstd::prelude::*;
#[allow(unused_imports)]
use vstd::string::*;

use crate::declarations::{ResourceId, TextureFormat};
#[allow(unused_imports)]
use crate::declarations::{frame_of, touches, PassDecl};
use crate::frame_passes::{
    Albedo, Bloom0, Bloom1, Bloom2, BloomBright, BloomDown1Pass, BloomDown2Pass, BloomUp0Pass,
    BloomUp1Pass, Composite, CompositeDeferred, CompositeDeferredBloom, CompositeForward,
    CompositeForwardBloom, CompositeHybrid, CompositeHybridBloom, Depth, Forward, FromDeferred,
    FromForward, GbufferPass, Hdr, HdrFwd, LightingPass, MaterialId, MaterialParams, Normal,
    OwnsDepth, SharedDepth, Target, WorldPosition,
};
#[allow(unused_imports)]
use crate::frame_plan::{one_layout_decides_the_budget, PlanView};
pub use crate::frame_wiring::{FrameIds, Technique};
#[allow(unused_imports)]
use crate::frame_wiring::{
    bloom_bodies, bloom_passes, composite_access, frame_bodies, frame_ids, frame_passes,
    frame_resources, frame_types, keyed_pass, layer_bodies, layer_passes, lemma_typed_is_keyed,
};
use crate::layout::{GraphLayout, PassLayout, ResourceLayout};
#[allow(unused_imports)]
use crate::layout::{alive_ok, slot_ok};
use crate::levels::flatten_levels;
#[allow(unused_imports)]
use crate::levels::{flattened, levels_ok};
use crate::schedule_bridge::{try_project_schedule, ProjectionError};
#[allow(unused_imports)]
use crate::schedule_bridge::{
    all_typed, edges_ok, is_first_untyped, system_names, systems_ok, Schedule,
};
use crate::system::{FramePass, SystemSet};
#[allow(unused_imports)]
use crate::system::{PassBody, SystemsView};
use crate::transient_pool::{
    texture_bytes, Budget, BudgetExceeded, FrameLayout, TransientPool,
};
#[allow(unused_imports)]
use crate::transient_pool::{clamped, exceeds, texture_size};

verus! {

/// What changed in the texture pool.
#[derive(Debug)]
pub struct PoolChange {
    /// Every texture of the pool was dropped (the surface size changed).
    pub cleared: bool,
    /// Slots that need a texture, ascending.
    pub create: Vec<usize>,
}

/// Tracks the pool textures of a layout and compiles layouts for the frame hot path.
#[derive(Debug)]
pub struct FrameExecutor {
    /// Bytes of the texture of every slot; `None` until it is created.
    pool: Vec<Option<u64>>,
    /// Resources whose external view is set.
    externals: Vec<ResourceId>,
    surface_size: Option<(u32, u32)>,
    layout_pool: TransientPool,
}

/// View of a [`FrameExecutor`].
#[verifier::ext_equal]
pub struct ExecutorView {
    pub pool: Seq<Option<u64>>,
    pub externals: Seq<ResourceId>,
    pub surface_size: Option<(u32, u32)>,
    /// Cached layout and its generation.
    pub cache: Option<(u64, GraphLayout)>,
    /// How often a layout was compiled.
    pub compiled: u32,
}

impl View for FrameExecutor {
    type V = ExecutorView;

    closed spec fn view(&self) -> ExecutorView {
        ExecutorView {
            pool: self.pool@,
            externals: self.externals@,
            surface_size: self.surface_size,
            cache: self.layout_pool.cache(),
            compiled: self.layout_pool.compiled(),
        }
    }
}

/// The textures that survive until the next layout: none if the surface size changed.
pub open spec fn kept_textures(v: ExecutorView, layout: GraphLayout) -> Seq<Option<u64>> {
    if v.surface_size == Some(layout.surface_size) {
        v.pool
    } else {
        Seq::empty()
    }
}

/// Slot `i` has a texture already.
pub open spec fn has_texture(kept: Seq<Option<u64>>, i: int) -> bool {
    0 <= i < kept.len() && kept[i] is Some
}

/// The pool after a layout was prepared: one texture per slot, those at hand kept.
pub open spec fn prepared_pool(v: ExecutorView, layout: GraphLayout) -> Seq<Option<u64>> {
    let kept = kept_textures(v, layout);
    Seq::new(
        layout.slots@.len(),
        |i: int|
            if has_texture(kept, i) {
                kept[i]
            } else {
                Some(clamped(texture_size(layout.slots@[i].spec, layout.surface_size)))
            },
    )
}

/// Bytes of the first `n` textures.
pub open spec fn pooled_bytes(pool: Seq<Option<u64>>, n: int) -> nat
    decreases n,
{
    if n <= 0 {
        0
    } else {
        pooled_bytes(pool, n - 1) + match pool[n - 1] {
            Some(bytes) => bytes as nat,
            None => 0,
        }
    }
}

/// The cached layout was compiled at the generation.
pub open spec fn is_hit(v: ExecutorView, generation: u64) -> bool {
    v.cache is Some && (v.cache->0).0 == generation
}

/// What asking for the layout of a plan does: a cache hit changes nothing, otherwise the
/// declarations are compiled and cached.
pub open spec fn ensured(
    before: ExecutorView,
    plan: PlanView,
    after: ExecutorView,
    layout: FrameLayout,
) -> bool {
    if is_hit(before, plan.generation) {
        layout == (before.cache->0).1 && after == before
    } else {
        &&& plan.compiles_to(layout)
        &&& plan.budget.admits(layout)
        &&& after == ExecutorView {
            cache: Some((plan.generation, layout)),
            compiled: before.compiled.wrapping_add(1),
            ..before
        }
    }
}

/// The plan exceeds its budget, as the error says.
pub open spec fn over_budget(plan: PlanView, e: BudgetExceeded) -> bool {
    exists|layout: FrameLayout| #[trigger]
        plan.compiles_to(layout) && !plan.budget.admits(layout) && exceeds(
            e,
            layout,
            plan.budget.limit->0,
        )
}

/// The cache is not ahead of the plan, and a layout of the plan's generation is its layout.
pub open spec fn in_step(v: ExecutorView, plan: PlanView) -> bool {
    v.cache is Some ==> {
        &&& (v.cache->0).0 <= plan.generation
        &&& (v.cache->0).0 == plan.generation ==> plan.compiles_to((v.cache->0).1)
    }
}

/// Without a mutation in between, the second request gives the layout of the first and compiles
/// nothing.
pub proof fn unchanged_declarations_are_compiled_once(
    before: ExecutorView,
    plan: PlanView,
    between: ExecutorView,
    first: FrameLayout,
    after: ExecutorView,
    second: FrameLayout,
)
    requires
        ensured(before, plan, between, first),
        ensured(between, plan, after, second),
    ensures
        second == first,
        after == between,
{
}

/// After a change of the generation the next request compiles the new declarations.
pub proof fn changed_declarations_are_compiled_anew(
    before: ExecutorView,
    plan: PlanView,
    between: ExecutorView,
    first: FrameLayout,
    changed: PlanView,
    after: ExecutorView,
    second: FrameLayout,
)
    requires
        ensured(before, plan, between, first),
        changed.generation != plan.generation,
        ensured(between, changed, after, second),
    ensures
        changed.compiles_to(second),
        after.compiled == between.compiled.wrapping_add(1),
{
}

/// A mutation of the plan, which raises its generation, keeps the cache in step.
pub proof fn mutations_keep_the_cache_in_step(v: ExecutorView, before: PlanView, after: PlanView)
    requires
        in_step(v, before),
        before.generation < after.generation,
    ensures
        in_step(v, after),
{
}

/// The resources with one more set, noted once.
pub open spec fn with_external(externals: Seq<ResourceId>, id: ResourceId) -> Seq<ResourceId> {
    if externals.contains(id) {
        externals
    } else {
        externals.push(id)
    }
}

/// The change says what preparing the pool for the layout takes: whether all textures were
/// dropped, and the slots without a texture, ascending.
pub open spec fn pool_change_ok(v: ExecutorView, layout: GraphLayout, change: PoolChange) -> bool {
    &&& change.cleared == (v.surface_size != Some(layout.surface_size))
    &&& forall|a: int, b: int|
        0 <= a < b < change.create@.len() ==> (#[trigger] change.create@[a])
            < #[trigger] change.create@[b]
    &&& forall|i: int|
        0 <= i < layout.slots@.len() ==> (#[trigger] change.create@.contains(i as usize)
            <==> !has_texture(kept_textures(v, layout), i))
    &&& forall|a: int|
        0 <= a < change.create@.len() ==> (#[trigger] change.create@[a]) < layout.slots@.len()
}

impl FrameExecutor {
    /// An executor with an empty texture pool.
    pub fn new() -> (e: FrameExecutor)
        ensures
            e@.pool.len() == 0,
            e@.externals.len() == 0,
            e@.surface_size is None,
            e@.cache is None,
            e@.compiled == 0,
    {
        FrameExecutor {
            pool: Vec::new(),
            externals: Vec::new(),
            surface_size: None,
            layout_pool: TransientPool::new(),
        }
    }

    /// Shared snapshot of the registry's layout. Without a mutation since the last call this is
    /// a cache hit; a mutation changes the generation and with it the snapshot.
    pub fn ensure_layout(&mut self, set: &SystemSet) -> (layout: Arc<FrameLayout>)
        requires
            set@.plan.ok(),
            set@.plan.fits_budget(),
        ensures
            ensured(old(self)@, set@.plan, final(self)@, *layout),
            in_step(old(self)@, set@.plan) ==> set@.plan.compiles_to(*layout) && in_step(
                final(self)@,
                set@.plan,
            ),
    {
        match self.try_ensure_layout(set) {
            Ok(layout) => layout,
            Err(_) => {
                assert(false);
                vstd::pervasive::unreached()
            },
        }
    }

    /// Like [`FrameExecutor::ensure_layout`], but a budget violation is returned. Nothing is
    /// cached in that case.
    pub fn try_ensure_layout(&mut self, set: &SystemSet) -> (res: Result<
        Arc<FrameLayout>,
        BudgetExceeded,
    >)
        requires
            set@.plan.ok(),
        ensures
            res is Ok <==> is_hit(old(self)@, set@.plan.generation) || set@.plan.fits_budget(),
            match res {
                Ok(layout) => {
                    &&& ensured(old(self)@, set@.plan, final(self)@, *layout)
                    &&& in_step(old(self)@, set@.plan) ==> set@.plan.compiles_to(*layout)
                        && in_step(final(self)@, set@.plan)
                },
                Err(e) => {
                    &&& over_budget(set@.plan, e)
                    &&& final(self)@ == (ExecutorView {
                        cache: None,
                        compiled: old(self)@.compiled.wrapping_add(1),
                        ..old(self)@
                    })
                },
            },
    {
        let generation: u64 = set.generation();
        let input = set.pool_input();
        match self.layout_pool.ensure(generation, &input) {
            Ok(layout) => {
                proof {
                    if !is_hit(old(self)@, generation) {
                        one_layout_decides_the_budget(set@.plan, (self@.cache->0).1);
                    }
                }
                Ok(layout)
            },
            Err(e) => {
                proof {
                    let l = choose|l: GraphLayout| #[trigger]
                        input.compiles_to(l) && !input.budget.admits(l) && exceeds(
                            e,
                            l,
                            input.budget.limit->0,
                        );
                    assert(set@.plan.compiles_to(l));
                    one_layout_decides_the_budget(set@.plan, l);
                }
                Err(e)
            },
        }
    }

    /// How often this executor has compiled a layout.
    pub fn layout_computations(&self) -> (n: u32)
        ensures
            n == self@.compiled,
    {
        self.layout_pool.layout_computations()
    }

    /// Drops the memoized layout without touching the texture pool.
    pub fn invalidate_layout(&mut self)
        ensures
            final(self)@ == (ExecutorView { cache: None, ..old(self)@ }),
    {
        self.layout_pool.invalidate();
    }

    /// Notes that the view of an external resource is set.
    pub fn set_external_view(&mut self, id: ResourceId)
        ensures
            final(self)@ == (ExecutorView {
                externals: with_external(old(self)@.externals, id),
                ..old(self)@
            }),
    {
        for i in 0..self.externals.len()
            invariant
                *self == *old(self),
                forall|k: int| 0 <= k < i ==> self.externals@[k] != id,
        {
            if self.externals[i] == id {
                assert(self.externals@[i as int] == id);
                return;
            }
        }
        self.externals.push(id);
    }

    /// Number of slots of the texture pool.
    pub fn slots_len(&self) -> (n: usize)
        ensures
            n == self@.pool.len(),
    {
        self.pool.len()
    }

    /// Total bytes of the pool textures, saturating.
    pub fn texture_budget(&self) -> (n: u64)
        ensures
            n == clamped(pooled_bytes(self@.pool, self@.pool.len() as int)),
    {
        let mut total: u64 = 0;
        for i in 0..self.pool.len()
            invariant
                total == clamped(pooled_bytes(self.pool@, i as int)),
        {
            if let Some(bytes) = self.pool[i] {
                total = total.saturating_add(bytes);
            }
        }
        total
    }

    /// Prepares the pool for a layout: drops all textures if the surface size changed, then asks
    /// for a texture for every slot that has none.
    pub fn ensure_pool(&mut self, layout: &GraphLayout) -> (change: PoolChange)
        ensures
            final(self)@ == (ExecutorView {
                pool: prepared_pool(old(self)@, *layout),
                surface_size: Some(layout.surface_size),
                ..old(self)@
            }),
            pool_change_ok(old(self)@, *layout, change),
    {
        let ghost was = self@;
        let cleared: bool = match self.surface_size {
            None => true,
            Some(size) => !(size.0 == layout.surface_size.0 && size.1 == layout.surface_size.1),
        };
        if cleared {
            self.pool.clear();
            self.surface_size = Some(layout.surface_size);
        }
        let ghost kept = kept_textures(was, *layout);
        assert(self.pool@ =~= kept);
        let mut pool: Vec<Option<u64>> = Vec::new();
        let mut create: Vec<usize> = Vec::new();
        for i in 0..layout.slots.len()
            invariant
                self.pool@ == kept,
                pool@.len() == i,
                forall|k: int|
                    0 <= k < i ==> #[trigger] pool@[k] == if has_texture(kept, k) {
                        kept[k]
                    } else {
                        Some(clamped(texture_size(layout.slots@[k].spec, layout.surface_size)))
                    },
                forall|a: int, b: int|
                    0 <= a < b < create@.len() ==> (#[trigger] create@[a]) < #[trigger] create@[b],
                forall|a: int| 0 <= a < create@.len() ==> (#[trigger] create@[a]) < i,
                forall|k: int|
                    0 <= k < i ==> (#[trigger] create@.contains(k as usize) <==> !has_texture(
                        kept,
                        k,
                    )),
        {
            let at_hand: Option<u64> = if i < self.pool.len() {
                self.pool[i]
            } else {
                None
            };
            let ghost earlier = create@;
            match at_hand {
                Some(bytes) => {
                    pool.push(Some(bytes));
                    assert forall|k: int| 0 <= k < i + 1 implies (#[trigger] create@.contains(
                        k as usize,
                    ) <==> !has_texture(kept, k)) by {
                        if k == i && create@.contains(k as usize) {
                            let a = choose|a: int|
                                0 <= a < create@.len() && create@[a] == k as usize;
                            assert(create@[a] < i);
                        }
                    }
                },
                None => {
                    pool.push(Some(texture_bytes(layout.slots[i].spec, layout.surface_size)));
                    create.push(i);
                    assert forall|k: int| 0 <= k < i + 1 implies (#[trigger] create@.contains(
                        k as usize,
                    ) <==> !has_texture(kept, k)) by {
                        if k < i {
                            assert(earlier.contains(k as usize) <==> !has_texture(kept, k));
                            if earlier.contains(k as usize) {
                                let a = choose|a: int|
                                    0 <= a < earlier.len() && earlier[a] == k as usize;
                                assert(create@[a] == k as usize);
                            }
                            if create@.contains(k as usize) {
                                let a = choose|a: int|
                                    0 <= a < create@.len() && create@[a] == k as usize;
                                assert(earlier[a] == k as usize);
                            }
                        } else {
                            assert(create@[earlier.len() as int] == k as usize);
                        }
                    }
                },
            }
        }
        self.pool = pool;
        assert(self.pool@ =~= prepared_pool(was, *layout));
        PoolChange { cleared, create }
    }

    /// One resolver per pass, in the given order of pass positions.
    pub fn pass_views<'a>(&'a self, layout: &'a GraphLayout, order: &Vec<usize>) -> (views: Vec<
        PassViews<'a>,
    >)
        ensures
            views@.len() == order@.len(),
            forall|i: int|
                0 <= i < views@.len() ==> (#[trigger] views@[i]).index == order@[i]
                    && views@[i].layout == layout && views@[i].pool@ == self@.pool
                    && views@[i].externals@ == self@.externals,
    {
        let mut views: Vec<PassViews<'a>> = Vec::new();
        for i in 0..order.len()
            invariant
                views@.len() == i,
                forall|k: int|
                    0 <= k < i ==> (#[trigger] views@[k]).index == order@[k] && views@[k].layout
                        == layout && views@[k].pool@ == self@.pool && views@[k].externals@
                        == self@.externals,
        {
            views.push(
                PassViews {
                    layout,
                    pool: &self.pool,
                    externals: &self.externals,
                    index: order[i],
                },
            );
        }
        views
    }
}

/// What backs a resource on a pass.
#[derive(Debug, Clone, Copy, PartialEq, Eq, Structural)]
pub enum ViewSource {
    /// The view that the caller set for the resource.
    External(ResourceId),
    /// The texture of the slot.
    Slot(usize),
}

/// Per-pass view resolver.
#[derive(Debug, Clone, Copy)]
pub struct PassViews<'a> {
    pub layout: &'a GraphLayout,
    pub pool: &'a Vec<Option<u64>>,
    pub externals: &'a Vec<ResourceId>,
    pub index: usize,
}

impl<'a> PassViews<'a> {
    /// The resolver stands on a pass of a layout.
    pub open spec fn wf(self) -> bool {
        self.layout.wf() && self.index < self.layout.passes@.len()
    }

    /// The pass in execution order.
    pub fn pass(&self) -> (pass: &'a PassLayout)
        requires
            self.wf(),
        ensures
            *pass == self.layout.passes@[self.index as int],
    {
        &self.layout.passes[self.index]
    }

    /// Index of the pass within the layout.
    pub fn pass_index(&self) -> (i: usize)
        ensures
            i == self.index,
    {
        self.index
    }

    /// Resources alive on this pass, in registration order.
    pub fn alive(&self) -> (ids: &'a [ResourceId])
        requires
            self.wf(),
        ensures
            ids@ == self.layout.pass_alive@[self.index as int]@,
            alive_ok(self.layout.resources@, self.index as int, ids@),
    {
        self.layout.pass_alive[self.index].as_slice()
    }

    /// Resource metadata.
    pub fn resource(&self, id: ResourceId) -> (rl: &'a ResourceLayout)
        requires
            id.0 < self.layout.resources@.len(),
        ensures
            *rl == self.layout.resources@[id.0 as int],
    {
        &self.layout.resources[id.0 as usize]
    }

    /// Pool slot for the resource, if it is alive and pooled on this pass.
    pub fn slot_of(&self, id: ResourceId) -> (slot: Option<usize>)
        requires
            id.0 < self.layout.resources@.len(),
        ensures
            slot == if self.layout.resources@[id.0 as int].is_alive_at(self.index as int) {
                self.layout.resources@[id.0 as int].slot
            } else {
                None
            },
    {
        let rl = self.resource(id);
        if rl.alive_at(self.index) {
            rl.slot
        } else {
            None
        }
    }

    /// What can back `id` on this pass: the resource is alive, and its external view is set or
    /// the texture of its slot exists.
    pub open spec fn resolves(self, id: ResourceId) -> bool {
        let rl = self.layout.resources@[id.0 as int];
        &&& id.0 < self.layout.resources@.len()
        &&& rl.is_alive_at(self.index as int)
        &&& if rl.external {
            self.externals@.contains(id)
        } else {
            rl.slot is Some && rl.slot->0 < self.pool@.len() && self.pool@[rl.slot->0 as int]
                is Some
        }
    }

    /// What backs `id`, which the pass declared, on this pass: the external view for external
    /// resources, otherwise the texture of its slot.
    pub fn view_of(&self, id: ResourceId) -> (source: ViewSource)
        requires
            self.wf(),
            touches(self.layout.passes@[self.index as int].decl(), id),
            self.resolves(id),
        ensures
            source == if self.layout.resources@[id.0 as int].external {
                ViewSource::External(id)
            } else {
                ViewSource::Slot(self.layout.resources@[id.0 as int].slot->0)
            },
    {
        let rl = self.resource(id);
        if rl.external {
            ViewSource::External(id)
        } else {
            match rl.slot {
                Some(slot) => ViewSource::Slot(slot),
                None => {
                    assert(false);
                    vstd::pervasive::unreached()
                },
            }
        }
    }
}

/// The pool of a frame is kept until the surface changes: a slot that has a texture for a surface of
/// the same size keeps it, any other gets one of the size that the layout asks for, and preparing
/// the same layout again changes nothing.
pub proof fn pools_are_kept_until_the_surface_changes(v: ExecutorView, layout: GraphLayout, i: int)
    requires
        0 <= i < layout.slots@.len(),
    ensures
        ({
            let after = prepared_pool(v, layout);
            let at_hand = v.surface_size == Some(layout.surface_size) && i < v.pool.len()
                && v.pool[i] is Some;
            &&& after.len() == layout.slots@.len()
            &&& at_hand ==> after[i] == v.pool[i]
            &&& !at_hand ==> after[i] == Some(
                clamped(texture_size(layout.slots@[i].spec, layout.surface_size)),
            )
            &&& prepared_pool(
                ExecutorView { pool: after, surface_size: Some(layout.surface_size), ..v },
                layout,
            ) == after
        }),
{
    let after = prepared_pool(v, layout);
    let next = ExecutorView { pool: after, surface_size: Some(layout.surface_size), ..v };
    assert(prepared_pool(next, layout) =~= after);
}

/// After the pool was prepared for a layout, every resource that a pass touches resolves, given
/// that the views of the external ones are set.
pub proof fn prepared_pool_backs_every_access(
    v: ExecutorView,
    views: PassViews<'_>,
    r: ResourceId,
)
    requires
        views.wf(),
        views.pool@ == prepared_pool(v, *views.layout),
        touches(views.layout.passes@[views.index as int].decl(), r),
        views.layout.resources@[r.0 as int].external ==> views.externals@.contains(r),
    ensures
        views.resolves(r),
{
    crate::layout_laws::touched_resources_are_backed(*views.layout, views.index as int, r);
    assert(slot_ok(views.layout.resources@, r.0 as int));
}

/// Ascending by pass position.
pub open spec fn by_position<T>(s: Seq<(usize, T)>) -> bool {
    forall|a: int, b: int| 0 <= a <= b < s.len() ==> (#[trigger] s[a]).0 <= (#[trigger] s[b]).0
}

/// Entries of one pass position, in their order.
pub open spec fn entries_at<T>(s: Seq<(usize, T)>, position: usize) -> Seq<(usize, T)> {
    s.filter(|e: (usize, T)| e.0 == position)
}

proof fn lemma_entries_concat<T>(a: Seq<(usize, T)>, b: Seq<(usize, T)>, position: usize)
    ensures
        entries_at(a + b, position) == entries_at(a, position) + entries_at(b, position),
{
    Seq::filter_distributes_over_add(a, b, |e: (usize, T)| e.0 == position);
}

proof fn lemma_no_entries<T>(s: Seq<(usize, T)>, position: usize)
    requires
        forall|k: int| 0 <= k < s.len() ==> (#[trigger] s[k]).0 != position,
    ensures
        entries_at(s, position) == Seq::<(usize, T)>::empty(),
    decreases s.len(),
{
    reveal(Seq::filter);
    if s.len() > 0 {
        assert(s.last() == s[s.len() - 1]);
        lemma_no_entries(s.drop_last(), position);
    }
}

/// Moving the last entry of `rest` to the front of those of its position in `sorted` keeps the
/// order of every position.
proof fn lemma_entry_moved<T>(
    rest: Seq<(usize, T)>,
    item: (usize, T),
    sorted: Seq<(usize, T)>,
    pos: int,
    position: usize,
)
    requires
        0 <= pos <= sorted.len(),
        forall|k: int| 0 <= k < pos ==> (#[trigger] sorted[k]).0 < item.0,
    ensures
        entries_at(rest, position) + entries_at(sorted.insert(pos, item), position) == entries_at(
            rest.push(item),
            position,
        ) + entries_at(sorted, position),
{
    let low = sorted.subrange(0, pos);
    let high = sorted.subrange(pos, sorted.len() as int);
    let one = seq![item];
    assert(sorted =~= low + high);
    assert(sorted.insert(pos, item) =~= low + (one + high));
    assert(rest.push(item) =~= rest + one);
    lemma_entries_concat(low, high, position);
    lemma_entries_concat(low, one + high, position);
    lemma_entries_concat(one, high, position);
    lemma_entries_concat(rest, one, position);
    if item.0 == position {
        assert forall|k: int| 0 <= k < low.len() implies (#[trigger] low[k]).0 != position by {
            assert(low[k] == sorted[k]);
        }
        lemma_no_entries(low, position);
    } else {
        lemma_no_entries(one, position);
    }
    let r = entries_at(rest, position);
    let l = entries_at(low, position);
    let o = entries_at(one, position);
    let h = entries_at(high, position);
    assert(r + (l + (o + h)) =~= (r + o) + (l + h));
}

/// Puts what was recorded concurrently back into registration order, ready for one ordered
/// submit. Entries of one position keep their order.
pub fn submission_order<T>(recorded: Vec<(usize, T)>) -> (ordered: Vec<(usize, T)>)
    ensures
        by_position(ordered@),
        ordered@.to_multiset() =~= recorded@.to_multiset(),
        forall|position: usize| #[trigger]
            entries_at(ordered@, position) == entries_at(recorded@, position),
{
    broadcast use vstd::seq_lib::group_to_multiset_ensures;

    let mut rest = recorded;
    let mut ordered: Vec<(usize, T)> = Vec::new();
    assert(ordered@.to_multiset() =~= vstd::multiset::Multiset::empty());
    assert forall|position: usize| #[trigger]
        entries_at(rest@, position) + entries_at(ordered@, position) == entries_at(
            recorded@,
            position,
        ) by {
        lemma_no_entries(ordered@, position);
    }
    while rest.len() > 0
        invariant
            by_position(ordered@),
            rest@.to_multiset().add(ordered@.to_multiset()) =~= recorded@.to_multiset(),
            forall|position: usize| #[trigger]
                entries_at(rest@, position) + entries_at(ordered@, position) == entries_at(
                    recorded@,
                    position,
                ),
        decreases rest@.len(),
    {
        let ghost before = rest@;
        let ghost sorted = ordered@;
        match rest.pop() {
            None => {
                assert(false);
            },
            Some(item) => {
                let mut pos: usize = 0;
                while pos < ordered.len() && ordered[pos].0 < item.0
                    invariant
                        pos <= ordered@.len(),
                        forall|k: int| 0 <= k < pos ==> (#[trigger] ordered@[k]).0 < item.0,
                    decreases ordered@.len() - pos,
                {
                    pos = pos + 1;
                }
                ordered.insert(pos, item);
                proof {
                    broadcast use vstd::seq_lib::group_to_multiset_ensures;

                    assert(before =~= rest@.push(item));
                    assert(before.to_multiset() =~= rest@.to_multiset().insert(item));
                    assert(ordered@ == sorted.insert(pos as int, item));
                    assert(ordered@.to_multiset() =~= sorted.to_multiset().insert(item));
                    assert forall|position: usize| #[trigger]
                        entries_at(rest@, position) + entries_at(ordered@, position)
                        == entries_at(recorded@, position) by {
                        lemma_entry_moved(rest@, item, sorted, pos as int, position);
                        assert(entries_at(before, position) + entries_at(sorted, position)
                            == entries_at(recorded@, position));
                    }
                }
                assert forall|a: int, b: int| 0 <= a <= b < ordered@.len() implies (
                #[trigger] ordered@[a]).0 <= (#[trigger] ordered@[b]).0 by {
                    let x = if a < pos {
                        a
                    } else {
                        a - 1
                    };
                    let y = if b < pos {
                        b
                    } else {
                        b - 1
                    };
                    if a != pos {
                        assert(ordered@[a] == sorted[x]);
                    }
                    if b != pos {
                        assert(ordered@[b] == sorted[y]);
                    }
                    if a == pos && b > pos {
                        assert(sorted[pos as int].0 <= sorted[y].0);
                    }
                }
            },
        }
    }
    assert(rest@ =~= Seq::empty());
    assert(rest@.to_multiset() =~= vstd::multiset::Multiset::empty());
    assert forall|position: usize| #[trigger]
        entries_at(ordered@, position) == entries_at(recorded@, position) by {
        lemma_no_entries(rest@, position);
        assert(entries_at(rest@, position) + entries_at(ordered@, position) == entries_at(
            recorded@,
            position,
        ));
        assert(Seq::<(usize, T)>::empty() + entries_at(ordered@, position) =~= entries_at(
            ordered@,
            position,
        ));
    }
    ordered
}

/// Graph-driven 3D frame: gbuffer, lighting, forward, bloom and composite passes, as the
/// technique wires them.
#[derive(Debug)]
pub struct RenderFrame3D {
    executor: FrameExecutor,
    parallel_recording: bool,
    ids: FrameIds,
    systems: SystemSet,
    bloom: bool,
    technique: Technique,
}

/// View of a [`RenderFrame3D`].
#[verifier::ext_equal]
pub struct FrameView {
    pub executor: ExecutorView,
    pub parallel_recording: bool,
    pub ids: FrameIds,
    pub systems: SystemsView,
    pub bloom: bool,
    pub technique: Technique,
}

impl FrameView {
    /// The executor's cache is in step with the registry.
    pub open spec fn in_step(self) -> bool {
        in_step(self.executor, self.systems.plan)
    }
}

/// Starting a frame: the layout is the cached one of the registry's generation, or the compiled
/// declarations; nothing but the executor changes, and of it the cache, the number of
/// compilations, the pool, the surface size and the noted target.
pub open spec fn begun(before: FrameView, after: FrameView, layout: FrameLayout) -> bool {
    let v = before.executor;
    let plan = before.systems.plan;
    let hit = is_hit(v, plan.generation);
    &&& hit ==> layout == (v.cache->0).1
    &&& !hit ==> plan.compiles_to(layout) && plan.budget.admits(layout)
    &&& after == (FrameView {
        executor: ExecutorView {
            pool: prepared_pool(v, layout),
            surface_size: Some(layout.surface_size),
            externals: with_external(v.externals, before.ids.target),
            cache: Some((plan.generation, layout)),
            compiled: if hit {
                v.compiled
            } else {
                v.compiled.wrapping_add(1)
            },
        },
        ..before
    })
}

impl View for RenderFrame3D {
    type V = FrameView;

    closed spec fn view(&self) -> FrameView {
        FrameView {
            executor: self.executor@,
            parallel_recording: self.parallel_recording,
            ids: self.ids,
            systems: self.systems@,
            bloom: self.bloom,
            technique: self.technique,
        }
    }
}

/// The declarations of the frame: everything but the generation, a counter that only changes.
pub open spec fn frame_wired(
    v: SystemsView,
    format: TextureFormat,
    size: (u32, u32),
    technique: Technique,
    bloom: bool,
) -> bool {
    &&& v.plan.resources == frame_resources(format)
    &&& v.plan.passes == frame_passes(technique, bloom)
    &&& v.plan.ordering.len() == 0
    &&& v.plan.surface_size == size
    &&& v.plan.budget.limit is None
    &&& v.types == frame_types()
    &&& v.bodies == frame_bodies(technique, bloom)
}

/// Registers the twelve resources of the frame.
fn register_frame(systems: &mut SystemSet, format: TextureFormat) -> (ids: FrameIds)
    requires
        old(systems).wf(),
        old(systems)@.plan.resources.len() == 0,
        old(systems)@.types.len() == 0,
        !old(systems).is_cached(),
    ensures
        final(systems).wf(),
        ids == frame_ids(),
        final(systems)@.plan.resources == frame_resources(format),
        final(systems)@.types == frame_types(),
        final(systems)@.plan.passes == old(systems)@.plan.passes,
        final(systems)@.plan.ordering == old(systems)@.plan.ordering,
        final(systems)@.plan.surface_size == old(systems)@.plan.surface_size,
        final(systems)@.plan.budget == old(systems)@.plan.budget,
        final(systems)@.bodies == old(systems)@.bodies,
        final(systems).compiled() == old(systems).compiled(),
        !final(systems).is_cached(),
{
    let ids = FrameIds {
        albedo: systems.register_resource::<Albedo>(format),
        normal: systems.register_resource::<Normal>(format),
        material_id: systems.register_resource::<MaterialId>(format),
        world_position: systems.register_resource::<WorldPosition>(format),
        material_params: systems.register_resource::<MaterialParams>(format),
        depth: systems.register_resource::<Depth>(format),
        hdr: systems.register_resource::<Hdr>(format),
        hdr_fwd: systems.register_resource::<HdrFwd>(format),
        target: systems.register_resource::<Target>(format),
        bloom0: systems.register_resource::<Bloom0>(format),
        bloom1: systems.register_resource::<Bloom1>(format),
        bloom2: systems.register_resource::<Bloom2>(format),
    };
    assert(systems@.plan.resources =~= frame_resources(format));
    assert(systems@.types =~= frame_types());
    ids
}

/// What adding one pass to a frame under construction keeps and changes.
spec fn grew(
    was: SystemsView,
    now: SystemsView,
    passes: Seq<PassDecl>,
    bodies: Seq<Option<PassBody>>,
) -> bool {
    &&& now.plan.resources == was.plan.resources
    &&& now.plan.ordering == was.plan.ordering
    &&& now.plan.surface_size == was.plan.surface_size
    &&& now.plan.budget == was.plan.budget
    &&& now.types == was.types
    &&& now.plan.passes == was.plan.passes + passes
    &&& now.bodies == was.bodies + bodies
}

/// Adds one typed pass to a frame whose types are registered.
fn add_keyed<P: FramePass>(systems: &mut SystemSet, pass: P)
    requires
        old(systems).wf(),
        old(systems)@.types == frame_types(),
        old(systems)@.plan.passes.len() < 64,
        forall|k: int|
            0 <= k < pass.access_of().reads.len() ==> #[trigger] pass.access_of().reads[k] < 12,
        forall|k: int|
            0 <= k < pass.access_of().writes.len() ==> (#[trigger] pass.access_of().writes[k]).0
                < 12,
    ensures
        final(systems).wf(),
        grew(
            old(systems)@,
            final(systems)@,
            seq![keyed_pass(pass.name_text(), pass.access_of())],
            seq![Some(pass.body_of())],
        ),
        final(systems).compiled() == old(systems).compiled(),
        !final(systems).is_cached(),
{
    proof {
        lemma_typed_is_keyed(pass.name_text(), pass.access_of());
    }
    let ghost was = systems@;
    let ghost p = keyed_pass(pass.name_text(), pass.access_of());
    let ghost b = Some(pass.body_of());
    let _ = systems.add_system(pass);
    assert(was.plan.passes.push(p) =~= was.plan.passes + seq![p]);
    assert(was.bodies.push(b) =~= was.bodies + seq![b]);
}

/// Adds the layer passes of the technique.
fn add_layers(systems: &mut SystemSet, technique: Technique)
    requires
        old(systems).wf(),
        old(systems)@.types == frame_types(),
        old(systems)@.plan.passes.len() == 0,
        old(systems)@.bodies.len() == 0,
        !old(systems).is_cached(),
    ensures
        final(systems).wf(),
        grew(
            old(systems)@,
            final(systems)@,
            layer_passes(technique),
            layer_bodies(technique),
        ),
        final(systems).compiled() == old(systems).compiled(),
        !final(systems).is_cached(),
{
    if technique.has_deferred() {
        add_keyed(systems, GbufferPass);
        add_keyed(systems, LightingPass);
    }
    if technique.has_forward() {
        // Forward-only the pass owns the depth buffer; in hybrid the G-buffer pass filled it.
        if technique == Technique::Forward {
            add_keyed(systems, Forward::<OwnsDepth>::new());
        } else {
            add_keyed(systems, Forward::<SharedDepth>::new());
        }
    }
    assert(systems@.plan.passes =~= layer_passes(technique));
    assert(systems@.bodies =~= layer_bodies(technique));
}

/// Adds the bloom chain.
fn add_bloom(systems: &mut SystemSet, technique: Technique)
    requires
        old(systems).wf(),
        old(systems)@.types == frame_types(),
        old(systems)@.plan.passes.len() < 32,
    ensures
        final(systems).wf(),
        grew(
            old(systems)@,
            final(systems)@,
            bloom_passes(technique),
            bloom_bodies(technique),
        ),
        final(systems).compiled() == old(systems).compiled(),
        !final(systems).is_cached(),
{
    let ghost was = systems@;
    // The bright pass reads the HDR layer that the technique makes.
    if technique.has_deferred() {
        add_keyed(systems, BloomBright::<FromDeferred>::new());
    } else {
        add_keyed(systems, BloomBright::<FromForward>::new());
    }
    add_keyed(systems, BloomDown1Pass);
    add_keyed(systems, BloomDown2Pass);
    add_keyed(systems, BloomUp1Pass);
    add_keyed(systems, BloomUp0Pass);
    assert(systems@.plan.passes =~= was.plan.passes + bloom_passes(technique));
    assert(systems@.bodies =~= was.bodies + bloom_bodies(technique));
}

/// Adds the composite pass: its mode is a function of technique and bloom.
fn add_composite(systems: &mut SystemSet, technique: Technique, bloom: bool)
    requires
        old(systems).wf(),
        old(systems)@.types == frame_types(),
        old(systems)@.plan.passes.len() < 64,
    ensures
        final(systems).wf(),
        grew(
            old(systems)@,
            final(systems)@,
            seq![keyed_pass("composite"@, composite_access(technique, bloom))],
            seq![Some(PassBody::Composite { shader_mode: technique.mode(), bloom })],
        ),
        final(systems).compiled() == old(systems).compiled(),
        !final(systems).is_cached(),
{
    let ghost wanted = composite_access(technique, bloom);
    match (technique, bloom) {
        (Technique::Deferred, true) => {
            let p = Composite::<CompositeDeferredBloom>::new();
            assert(p.access_of() =~= wanted);
            add_keyed(systems, p);
        },
        (Technique::Deferred, false) => {
            let p = Composite::<CompositeDeferred>::new();
            assert(p.access_of() =~= wanted);
            add_keyed(systems, p);
        },
        (Technique::Forward, true) => {
            let p = Composite::<CompositeForwardBloom>::new();
            assert(p.access_of() =~= wanted);
            add_keyed(systems, p);
        },
        (Technique::Forward, false) => {
            let p = Composite::<CompositeForward>::new();
            assert(p.access_of() =~= wanted);
            add_keyed(systems, p);
        },
        (Technique::Hybrid, true) => {
            let p = Composite::<CompositeHybridBloom>::new();
            assert(p.access_of() =~= wanted);
            add_keyed(systems, p);
        },
        (Technique::Hybrid, false) => {
            let p = Composite::<CompositeHybrid>::new();
            assert(p.access_of() =~= wanted);
            add_keyed(systems, p);
        },
    }
}

impl RenderFrame3D {
    /// The registry is well formed.
    pub closed spec fn wf(self) -> bool {
        self.systems.wf()
    }

    /// A layout of the registry is cached.
    pub closed spec fn is_cached(self) -> bool {
        self.systems.is_cached()
    }

    /// How often the registry has compiled its layout.
    pub closed spec fn compiled(self) -> u32 {
        self.systems.compiled()
    }

    /// The hybrid frame without bloom.
    pub fn new(surface_format: TextureFormat, surface_size: (u32, u32)) -> (f: RenderFrame3D)
        ensures
            f.wf(),
            frame_wired(f@.systems, surface_format, surface_size, Technique::Hybrid, false),
            f@.ids == frame_ids(),
            f@.technique == Technique::Hybrid,
            !f@.bloom,
            !f@.parallel_recording,
            f@.executor.pool.len() == 0,
            f@.executor.externals.len() == 0,
            f@.executor.surface_size is None,
            f@.executor.cache is None,
            f@.executor.compiled == 0,
            f@.in_step(),
            f.compiled() == 0,
            !f.is_cached(),
    {
        RenderFrame3D::new_with(surface_format, surface_size, Technique::Hybrid, false)
    }

    /// The hybrid frame with the bloom cascade: down to 1/8 of the surface, up again, and mixed
    /// into the HDR result.
    pub fn new_with_bloom(surface_format: TextureFormat, surface_size: (u32, u32)) -> (f:
        RenderFrame3D)
        ensures
            f.wf(),
            frame_wired(f@.systems, surface_format, surface_size, Technique::Hybrid, true),
            f@.ids == frame_ids(),
            f@.technique == Technique::Hybrid,
            f@.bloom,
            !f@.parallel_recording,
            f@.executor.pool.len() == 0,
            f@.executor.externals.len() == 0,
            f@.executor.surface_size is None,
            f@.executor.cache is None,
            f@.executor.compiled == 0,
            f@.in_step(),
            f.compiled() == 0,
            !f.is_cached(),
    {
        RenderFrame3D::new_with(surface_format, surface_size, Technique::Hybrid, true)
    }

    /// The frame of a technique with optional bloom: deferred passes exist only where the
    /// technique has them, so does the forward pass, and the bloom chain reads whichever HDR
    /// layer the technique makes.
    pub fn new_with(
        surface_format: TextureFormat,
        surface_size: (u32, u32),
        technique: Technique,
        bloom: bool,
    ) -> (f: RenderFrame3D)
        ensures
            f.wf(),
            frame_wired(f@.systems, surface_format, surface_size, technique, bloom),
            f@.ids == frame_ids(),
            f@.technique == technique,
            f@.bloom == bloom,
            !f@.parallel_recording,
            f@.executor.pool.len() == 0,
            f@.executor.externals.len() == 0,
            f@.executor.surface_size is None,
            f@.executor.cache is None,
            f@.executor.compiled == 0,
            f@.in_step(),
            f.compiled() == 0,
            !f.is_cached(),
    {
        let mut systems = SystemSet::new();
        systems.set_surface_size(surface_size);
        let ids = register_frame(&mut systems, surface_format);
        let ghost empty = systems@;
        add_layers(&mut systems, technique);
        if bloom {
            add_bloom(&mut systems, technique);
        }
        add_composite(&mut systems, technique, bloom);
        proof {
            assert(empty.plan.passes =~= Seq::empty());
            assert(empty.bodies =~= Seq::empty());
            assert(systems@.plan.passes =~= frame_passes(technique, bloom));
            assert(systems@.bodies =~= frame_bodies(technique, bloom));
        }
        RenderFrame3D {
            executor: FrameExecutor::new(),
            parallel_recording: false,
            ids,
            systems,
            bloom,
            technique,
        }
    }

    /// Resource handles of this frame.
    pub fn ids(&self) -> (ids: FrameIds)
        ensures
            ids == self@.ids,
    {
        self.ids
    }

    /// The technique this frame was wired for.
    pub fn technique(&self) -> (t: Technique)
        ensures
            t == self@.technique,
    {
        self.technique
    }

    /// Whether the bloom cascade is wired into this frame.
    pub fn bloom_enabled(&self) -> (yes: bool)
        ensures
            yes == self@.bloom,
    {
        self.bloom
    }

    /// Read access to the declaration registry.
    pub fn systems(&self) -> (s: &SystemSet)
        ensures
            s@ == self@.systems,
            s.wf() == self.wf(),
            s.is_cached() == self.is_cached(),
            s.compiled() == self.compiled(),
    {
        &self.systems
    }

    /// Mutable access to the declaration registry. Any mutation invalidates the layout cache.
    pub fn systems_mut(&mut self) -> (s: &mut SystemSet)
        ensures
            s@ == old(self)@.systems,
            s.wf() == old(self).wf(),
            s.is_cached() == old(self).is_cached(),
            s.compiled() == old(self).compiled(),
            final(self)@ == (FrameView { systems: final(s)@, ..old(self)@ }),
            final(self).wf() == final(s).wf(),
            final(self).is_cached() == final(s).is_cached(),
            final(self).compiled() == final(s).compiled(),
    {
        &mut self.systems
    }

    /// Updates the surface size before the next frame (window resize).
    pub fn set_surface_size(&mut self, width: u32, height: u32)
        requires
            old(self).wf(),
        ensures
            final(self).wf(),
            final(self)@ == (FrameView {
                systems: SystemsView {
                    plan: crate::frame_plan::PlanView {
                        surface_size: (width, height),
                        ..old(self)@.systems.plan.touched()
                    },
                    ..old(self)@.systems
                },
                ..old(self)@
            }),
            old(self)@.in_step() && old(self)@.systems.plan.generation < u64::MAX
                ==> final(self)@.in_step(),
            !final(self).is_cached(),
            final(self).compiled() == old(self).compiled(),
    {
        self.systems.set_surface_size((width, height));
    }

    /// Enables or disables parallel command recording. Off by default.
    pub fn set_parallel_recording(&mut self, parallel: bool)
        ensures
            final(self)@ == (FrameView { parallel_recording: parallel, ..old(self)@ }),
            final(self).wf() == old(self).wf(),
            final(self).is_cached() == old(self).is_cached(),
            final(self).compiled() == old(self).compiled(),
    {
        self.parallel_recording = parallel;
    }

    /// Whether parallel recording is on.
    pub fn parallel_recording(&self) -> (yes: bool)
        ensures
            yes == self@.parallel_recording,
    {
        self.parallel_recording
    }

    /// Sets the GPU memory budget of the transient pool; the next layout is held to it.
    pub fn set_budget(&mut self, budget: Budget)
        requires
            old(self).wf(),
        ensures
            final(self).wf(),
            final(self)@ == (FrameView {
                systems: SystemsView {
                    plan: crate::frame_plan::PlanView {
                        budget,
                        ..old(self)@.systems.plan.touched()
                    },
                    ..old(self)@.systems
                },
                ..old(self)@
            }),
            old(self)@.in_step() && old(self)@.systems.plan.generation < u64::MAX
                ==> final(self)@.in_step(),
            !final(self).is_cached(),
            final(self).compiled() == old(self).compiled(),
    {
        self.systems.set_budget(budget);
    }

    /// Textual layout dump for debugging and reporting (uses the layout cache).
    pub fn layout_dump(&mut self) -> (out: String)
        requires
            old(self).wf(),
            old(self)@.systems.plan.ok(),
            old(self)@.systems.plan.fits_budget(),
        ensures
            final(self).wf(),
            final(self)@ == old(self)@,
            final(self).is_cached(),
            final(self).compiled() == if old(self).is_cached() {
                old(self).compiled()
            } else {
                old(self).compiled().wrapping_add(1)
            },
            exists|layout: FrameLayout| #[trigger]
                old(self)@.systems.plan.compiles_to(layout) && out@ == layout.dump_text(),
    {
        self.systems.layout().debug_dump()
    }

    /// Number of pool textures: against the number of declared resources, the aliasing win.
    pub fn pool_slots(&self) -> (n: usize)
        ensures
            n == self@.executor.pool.len(),
    {
        self.executor.slots_len()
    }

    /// Bytes of the pool textures, saturating.
    pub fn texture_budget(&self) -> (n: u64)
        ensures
            n == clamped(pooled_bytes(self@.executor.pool, self@.executor.pool.len() as int)),
    {
        self.executor.texture_budget()
    }

    /// Starts a frame: the layout of the registry (memoized against its generation), the target
    /// noted as set, and the pool prepared. Says which textures the caller has to create.
    pub fn begin_frame(&mut self) -> (res: (Arc<FrameLayout>, PoolChange))
        requires
            old(self).wf(),
            old(self)@.systems.plan.ok(),
            old(self)@.systems.plan.fits_budget(),
        ensures
            final(self).wf(),
            begun(old(self)@, final(self)@, *res.0),
            old(self)@.in_step() ==> old(self)@.systems.plan.compiles_to(*res.0)
                && final(self)@.in_step(),
            pool_change_ok(old(self)@.executor, *res.0, res.1),
            final(self).is_cached() == old(self).is_cached(),
            final(self).compiled() == old(self).compiled(),
    {
        match self.try_begin_frame() {
            Ok(res) => res,
            Err(_) => {
                assert(false);
                vstd::pervasive::unreached()
            },
        }
    }

    /// Like [`RenderFrame3D::begin_frame`], but a budget violation is returned. No frame is
    /// started in that case, and the executor's cached layout is dropped.
    pub fn try_begin_frame(&mut self) -> (res: Result<
        (Arc<FrameLayout>, PoolChange),
        BudgetExceeded,
    >)
        requires
            old(self).wf(),
            old(self)@.systems.plan.ok(),
        ensures
            final(self).wf(),
            final(self).is_cached() == old(self).is_cached(),
            final(self).compiled() == old(self).compiled(),
            res is Ok <==> is_hit(old(self)@.executor, old(self)@.systems.plan.generation)
                || old(self)@.systems.plan.fits_budget(),
            match res {
                Ok((layout, change)) => {
                    &&& begun(old(self)@, final(self)@, *layout)
                    &&& old(self)@.in_step() ==> old(self)@.systems.plan.compiles_to(*layout)
                        && final(self)@.in_step()
                    &&& pool_change_ok(old(self)@.executor, *layout, change)
                },
                Err(e) => {
                    &&& over_budget(old(self)@.systems.plan, e)
                    &&& final(self)@ == (FrameView {
                        executor: ExecutorView {
                            cache: None,
                            compiled: old(self)@.executor.compiled.wrapping_add(1),
                            ..old(self)@.executor
                        },
                        ..old(self)@
                    })
                },
            },
    {
        match self.executor.try_ensure_layout(&self.systems) {
            Err(e) => Err(e),
            Ok(layout) => {
                self.executor.set_external_view(self.ids.target);
                let change = self.executor.ensure_pool(&layout);
                Ok((layout, change))
            },
        }
    }

    /// One resolver per pass, in the given order of pass positions.
    pub fn pass_views<'a>(&'a self, layout: &'a GraphLayout, order: &Vec<usize>) -> (views: Vec<
        PassViews<'a>,
    >)
        ensures
            views@.len() == order@.len(),
            forall|i: int|
                0 <= i < views@.len() ==> (#[trigger] views@[i]).index == order@[i]
                    && views@[i].layout == layout && views@[i].pool@ == self@.executor.pool
                    && views@[i].externals@ == self@.executor.externals,
    {
        self.executor.pass_views(layout, order)
    }

    /// The order in which a scheduler runs the passes: the levels of the projected schedule, one
    /// after the other.
    pub fn projected_order(&self) -> (res: Result<Vec<usize>, ProjectionError>)
        requires
            self.wf(),
        ensures
            match res {
                Ok(order) => exists|schedule: Schedule, levels: Seq<Vec<usize>>| #[trigger]
                    projects(self@.systems, schedule) && #[trigger] levels_ok(
                        schedule.dependencies(),
                        levels,
                    ) && order@ == flattened(levels, levels.len() as int),
                Err(e) => exists|i: int, k: int| #[trigger]
                    is_first_untyped(
                        self@.systems.types,
                        frame_of(self@.systems.plan.passes),
                        e,
                        i,
                        k,
                    ),
            },
    {
        let projected = try_project_schedule(&self.systems);
        match projected {
            Err(e) => {
                let ghost (i, k) = choose|i: int, k: int| #[trigger]
                    is_first_untyped(
                        self@.systems.types,
                        frame_of(self@.systems.plan.passes),
                        e,
                        i,
                        k,
                    );
                let res: Result<Vec<usize>, ProjectionError> = Err(e);
                assert(is_first_untyped(
                    self@.systems.types,
                    frame_of(self@.systems.plan.passes),
                    res->Err_0,
                    i,
                    k,
                ));
                res
            },
            Ok(schedule) => {
                let levels = schedule.levels();
                assert(projects(self@.systems, schedule));
                assert(levels_ok(schedule.dependencies(), levels@));
                Ok(flatten_levels(&levels))
            },
        }
    }
}

/// The schedule is the projection of the registry.
pub open spec fn projects(v: SystemsView, schedule: Schedule) -> bool {
    &&& all_typed(v.types, frame_of(v.plan.passes))
    &&& systems_ok(v.types, frame_of(v.plan.passes), schedule.systems@)
    &&& edges_ok(
        v.plan.passes,
        system_names(schedule.systems@),
        v.plan.ordering,
        schedule.edges@,
    )
}

} // verus!
