//! The transient pool: compiles declaration snapshots into shared layouts, memoized against the
//! generation of the declarations, and holds them to a memory budget.
use std::sync::Arc;
use vstd::prelude::*;
#[allow(unused_imports)]
use vstd::string::*;

use crate::compile::compile_layout;
#[allow(unused_imports)]
use crate::declarations::{
    first_touch_ok, frame_of, ids_in_range, pass_decls, resource_decls, PassDecl, ResourceDecl,
};
use crate::declarations::{PassId, PassNode, ResourceNode, SizePolicy, TextureFormat, TextureSpec};
use crate::dump::names_joined;
#[allow(unused_imports)]
use crate::dump::names_of;
use crate::layout::{GraphLayout, PoolSlot};
#[allow(unused_imports)]
use crate::layout::pool_slot_ok;
#[allow(unused_imports)]
use crate::layout_laws::same_layout;
use crate::text::push_decimal;
#[allow(unused_imports)]
use crate::text::{decimal, joined};

verus! {

/// The compiled layout of a frame.
pub type FrameLayout = GraphLayout;

impl TextureFormat {
    /// Bytes of one pixel of one sample.
    pub open spec fn bytes(self) -> nat {
        match self {
            TextureFormat::Rgba8Unorm => 4,
            TextureFormat::Rgba8UnormSrgb => 4,
            TextureFormat::Bgra8Unorm => 4,
            TextureFormat::Bgra8UnormSrgb => 4,
            TextureFormat::Rg16Float => 4,
            TextureFormat::R32Uint => 4,
            TextureFormat::R32Float => 4,
            TextureFormat::Rgba16Float => 8,
            TextureFormat::Rgba32Float => 16,
            TextureFormat::Depth32Float => 4,
        }
    }
}

/// Bytes of one pixel of one sample.
pub fn format_bytes_per_pixel(format: TextureFormat) -> (n: u32)
    ensures
        n == format.bytes(),
        4 <= n <= 16,
{
    match format {
        TextureFormat::Rgba8Unorm => 4,
        TextureFormat::Rgba8UnormSrgb => 4,
        TextureFormat::Bgra8Unorm => 4,
        TextureFormat::Bgra8UnormSrgb => 4,
        TextureFormat::Rg16Float => 4,
        TextureFormat::R32Uint => 4,
        TextureFormat::R32Float => 4,
        TextureFormat::Rgba16Float => 8,
        TextureFormat::Rgba32Float => 16,
        TextureFormat::Depth32Float => 4,
    }
}

/// One axis of a fraction of the surface: at least one pixel.
pub open spec fn fraction_of(len: u32, divisor: u32) -> u32 {
    let d = if divisor == 0 {
        1
    } else {
        divisor
    };
    if len / d == 0 {
        1
    } else {
        len / d
    }
}

impl SizePolicy {
    /// The extent that the policy asks for on a surface.
    pub open spec fn extent(self, surface: (u32, u32)) -> (u32, u32) {
        match self {
            SizePolicy::MatchSurface => surface,
            SizePolicy::Fraction(d) => (fraction_of(surface.0, d), fraction_of(surface.1, d)),
            SizePolicy::Fixed { width, height } => (width, height),
        }
    }

    /// The extent that the policy asks for on a surface.
    pub fn resolve(&self, surface: (u32, u32)) -> (extent: (u32, u32))
        ensures
            extent == self.extent(surface),
    {
        match self {
            SizePolicy::MatchSurface => surface,
            SizePolicy::Fraction(divisor) => {
                let d: u32 = if *divisor == 0 {
                    1
                } else {
                    *divisor
                };
                let w: u32 = surface.0 / d;
                let h: u32 = surface.1 / d;
                (
                    if w == 0 {
                        1
                    } else {
                        w
                    },
                    if h == 0 {
                        1
                    } else {
                        h
                    },
                )
            },
            SizePolicy::Fixed { width, height } => (*width, *height),
        }
    }
}

/// A fraction of the surface divides it, rounded down, but never to nothing: as many pixels as the
/// divisor fits into the surface, at least one. A divisor of zero counts as one.
pub proof fn fractions_divide_the_surface(len: u32, divisor: u32)
    ensures
        1 <= fraction_of(len, divisor),
        divisor <= 1 && 1 <= len ==> fraction_of(len, divisor) == len,
        1 <= divisor <= len ==> fraction_of(len, divisor) * divisor <= len && len < (fraction_of(
            len,
            divisor,
        ) + 1) * divisor,
        len < divisor ==> fraction_of(len, divisor) == 1,
{
    if 1 <= divisor {
        let q = len / divisor;
        assert(q * divisor <= len && len < (q + 1) * divisor) by (nonlinear_arith)
            requires
                1 <= divisor,
                q == len / divisor,
        ;
        if q == 0 {
            assert(len < divisor) by (nonlinear_arith)
                requires
                    len < (q + 1) * divisor,
                    q == 0,
            ;
        } else {
            assert(divisor <= len) by (nonlinear_arith)
                requires
                    q * divisor <= len,
                    q >= 1,
            ;
        }
        if divisor == 1 {
            assert(len / 1u32 == len);
        }
    }
}

/// Bytes of one texture: pixels times samples times bytes per pixel.
pub open spec fn texture_size(spec: TextureSpec, surface: (u32, u32)) -> nat {
    let e = spec.size.extent(surface);
    spec.format.bytes() * (e.0 as nat) * (e.1 as nat) * (spec.samples as nat)
}

/// A texture takes the bytes of its format for every sample of every pixel: a texture of one pixel and
/// one sample takes just these, and every further sample, row or column as much again as the one
/// before.
pub proof fn every_sample_of_every_pixel_counts_once(
    format: TextureFormat,
    width: u32,
    height: u32,
    samples: u32,
    surface: (u32, u32),
)
    ensures
        ({
            let size = |w: u32, h: u32, n: u32|
                texture_size(
                    TextureSpec {
                        format,
                        samples: n,
                        size: SizePolicy::Fixed { width: w, height: h },
                    },
                    surface,
                );
            &&& size(1, 1, 1) == format.bytes()
            &&& size(width, height, samples) == samples as nat * size(width, height, 1)
            &&& size(width, height, 1) == height as nat * size(width, 1, 1)
            &&& size(width, 1, 1) == width as nat * size(1, 1, 1)
        }),
{
    let b = format.bytes();
    let w = width as nat;
    let h = height as nat;
    let n = samples as nat;
    assert(b * 1 * 1 * 1 == b) by (nonlinear_arith);
    assert(b * w * h * n == n * (b * w * h * 1)) by (nonlinear_arith);
    assert(b * w * h * 1 == h * (b * w * 1 * 1)) by (nonlinear_arith);
    assert(b * w * 1 * 1 == w * (b * 1 * 1 * 1)) by (nonlinear_arith);
}

/// Bytes of the first `n` slots.
pub open spec fn pool_size(slots: Seq<PoolSlot>, surface: (u32, u32), n: int) -> nat
    decreases n,
{
    if n <= 0 {
        0
    } else {
        pool_size(slots, surface, n - 1) + texture_size(slots[n - 1].spec, surface)
    }
}

/// A byte count as far as 64 bits can hold it.
pub open spec fn clamped(n: nat) -> u64 {
    if n > u64::MAX {
        u64::MAX
    } else {
        n as u64
    }
}

/// Bytes of one texture, saturating.
pub fn texture_bytes(spec: TextureSpec, surface: (u32, u32)) -> (n: u64)
    ensures
        n == clamped(texture_size(spec, surface)),
{
    let (width, height) = spec.size.resolve(surface);
    let bpp: u32 = format_bytes_per_pixel(spec.format);
    let samples: u32 = spec.samples;
    assert(0 <= bpp * width <= 16 * u32::MAX) by (nonlinear_arith)
        requires
            bpp <= 16,
    ;
    let row: u128 = bpp as u128 * width as u128;
    assert(0 <= row * height <= 16 * u32::MAX * u32::MAX) by (nonlinear_arith)
        requires
            row <= 16 * u32::MAX,
    ;
    let plane: u128 = row * height as u128;
    assert(0 <= plane * samples <= 16 * u32::MAX * u32::MAX * u32::MAX) by (nonlinear_arith)
        requires
            plane <= 16 * u32::MAX * u32::MAX,
    ;
    let total: u128 = plane * samples as u128;
    assert(total == texture_size(spec, surface));
    if total > u64::MAX as u128 {
        u64::MAX
    } else {
        total as u64
    }
}

impl GraphLayout {
    /// Bytes of all pool textures at the layout's surface size.
    pub open spec fn planned_size(self) -> nat {
        pool_size(self.slots@, self.surface_size, self.slots@.len() as int)
    }

    /// Bytes of all pool textures at the layout's surface size, saturating.
    pub fn planned_pool_bytes(&self) -> (n: u64)
        ensures
            n == clamped(self.planned_size()),
    {
        let mut total: u64 = 0;
        for j in 0..self.slots.len()
            invariant
                total == clamped(pool_size(self.slots@, self.surface_size, j as int)),
        {
            let own: u64 = texture_bytes(self.slots[j].spec, self.surface_size);
            total = total.saturating_add(own);
        }
        total
    }
}

proof fn lemma_same_pool(x: Seq<PoolSlot>, y: Seq<PoolSlot>, surface: (u32, u32), n: int)
    requires
        x.len() == y.len(),
        n <= x.len(),
        forall|j: int| #![trigger x[j]] 0 <= j < x.len() ==> x[j].spec == y[j].spec,
    ensures
        pool_size(x, surface, n) == pool_size(y, surface, n),
    decreases n,
{
    if n > 0 {
        lemma_same_pool(x, y, surface, n - 1);
        assert(x[n - 1].spec == y[n - 1].spec);
    }
}

/// Layouts with the same values need the same bytes.
pub proof fn same_layouts_need_the_same_bytes(x: GraphLayout, y: GraphLayout)
    requires
        same_layout(x, y),
    ensures
        x.planned_size() == y.planned_size(),
{
    lemma_same_pool(x.slots@, y.slots@, x.surface_size, x.slots@.len() as int);
}

/// GPU memory budget of the pool.
#[derive(Debug, Clone, Copy, PartialEq, Eq, Structural)]
pub struct Budget {
    /// Most bytes that pool textures may take; `None` is unbounded.
    pub limit: Option<u64>,
}

impl Budget {
    /// No limit.
    pub fn unbounded() -> (b: Budget)
        ensures
            b.limit is None,
    {
        Budget { limit: None }
    }

    /// At most `bytes` of GPU textures.
    pub fn gpu_textures(bytes: u64) -> (b: Budget)
        ensures
            b.limit == Some(bytes),
    {
        Budget { limit: Some(bytes) }
    }

    /// The layout's pool fits.
    pub open spec fn admits(self, layout: GraphLayout) -> bool {
        self.limit is Some ==> clamped(layout.planned_size()) <= self.limit->0
    }
}

/// The pool of a layout does not fit its budget.
#[derive(Debug)]
pub struct BudgetExceeded {
    /// Bytes that the pool needs.
    pub required: u64,
    /// Bytes that the budget grants.
    pub budget: u64,
    /// Names of the resources in the largest slot.
    pub largest: String,
}

/// Bytes in one MiB.
pub const MIB: u64 = 1048576;

impl BudgetExceeded {
    /// The error as text.
    pub open spec fn text(self) -> Seq<char> {
        "transient pool needs "@ + decimal((self.required / MIB) as nat) + " MiB ("@ + decimal(
            self.required as nat,
        ) + " bytes), the budget is "@ + decimal((self.budget / MIB) as nat) + " MiB ("@ + decimal(
            self.budget as nat,
        ) + " bytes); the largest slot holds "@ + self.largest@
    }

    /// The error as text.
    pub fn message(&self) -> (out: String)
        ensures
            out@ == self.text(),
    {
        let mut out = String::new();
        out.append("transient pool needs ");
        push_decimal(&mut out, self.required / MIB);
        out.append(" MiB (");
        push_decimal(&mut out, self.required);
        out.append(" bytes), the budget is ");
        push_decimal(&mut out, self.budget / MIB);
        out.append(" MiB (");
        push_decimal(&mut out, self.budget);
        out.append(" bytes); the largest slot holds ");
        out.append(self.largest.as_str());
        out
    }
}

/// `j` is the first slot of the greatest size.
pub open spec fn is_largest_slot(layout: GraphLayout, j: int) -> bool {
    let size = |k: int| clamped(texture_size(layout.slots@[k].spec, layout.surface_size));
    &&& 0 <= j < layout.slots@.len()
    &&& forall|k: int| 0 <= k < j ==> #[trigger] size(k) < size(j)
    &&& forall|k: int| j < k < layout.slots@.len() ==> #[trigger] size(k) <= size(j)
}

/// The error names the need of the layout, the limit, and the largest slot.
pub open spec fn exceeds(e: BudgetExceeded, layout: GraphLayout, limit: u64) -> bool {
    &&& e.required == clamped(layout.planned_size())
    &&& e.budget == limit
    &&& e.required > limit
    &&& exists|j: int| #[trigger]
        is_largest_slot(layout, j) && e.largest@ == joined(
            names_of(layout.resources@, layout.slots@[j].resources@),
            ", "@,
        )
}

/// Holds the layout to the budget.
pub fn check_budget(layout: &GraphLayout, budget: Budget) -> (res: Result<(), BudgetExceeded>)
    requires
        layout.wf(),
    ensures
        res is Ok <==> budget.admits(*layout),
        res is Err ==> exceeds(res->Err_0, *layout, budget.limit->0),
{
    match budget.limit {
        None => Ok(()),
        Some(limit) => {
            let required: u64 = layout.planned_pool_bytes();
            if required <= limit {
                return Ok(());
            }
            assert(layout.slots@.len() > 0);
            let ghost size = |k: int|
                clamped(texture_size(layout.slots@[k].spec, layout.surface_size));
            let mut best: usize = 0;
            let mut most: u64 = texture_bytes(layout.slots[0].spec, layout.surface_size);
            for j in 1..layout.slots.len()
                invariant
                    size == (|k: int|
                        clamped(texture_size(layout.slots@[k].spec, layout.surface_size))),
                    layout.slots@.len() > 0,
                    best < j,
                    most == size(best as int),
                    best < layout.slots@.len(),
                    forall|k: int| 0 <= k < best ==> #[trigger] size(k) < size(best as int),
                    forall|k: int| best < k < j ==> #[trigger] size(k) <= size(best as int),
            {
                let own: u64 = texture_bytes(layout.slots[j].spec, layout.surface_size);
                assert(own == size(j as int));
                if own > most {
                    best = j;
                    most = own;
                }
            }
            assert(is_largest_slot(*layout, best as int));
            assert(pool_slot_ok(layout.slots@, layout.resources@, best as int));
            let largest = names_joined(&layout.resources, &layout.slots[best].resources);
            Err(BudgetExceeded { required, budget: limit, largest })
        },
    }
}

/// Borrowed declarations: what the pool compiles.
pub struct PoolInput<'a> {
    pub resources: &'a Vec<ResourceNode>,
    pub passes: &'a Vec<PassNode>,
    pub ordering: &'a Vec<(PassId, PassId)>,
    pub surface_size: (u32, u32),
    pub budget: Budget,
}

/// Declarations that compile: handles fit, every access names a registered resource, and no
/// resource is read before it is written unless it is imported.
pub open spec fn declarations_ok(resources: Seq<ResourceDecl>, passes: Seq<PassDecl>) -> bool {
    &&& resources.len() <= u32::MAX + 1
    &&& passes.len() <= u32::MAX + 1
    &&& ids_in_range(passes, resources.len())
    &&& first_touch_ok(resources, frame_of(passes))
}

impl<'a> PoolInput<'a> {
    /// The declarations compile.
    pub open spec fn ok(self) -> bool {
        declarations_ok(resource_decls(self.resources@), pass_decls(self.passes@))
    }

    /// The layout is the one of these declarations.
    pub open spec fn compiles_to(self, layout: GraphLayout) -> bool {
        layout.describes(
            resource_decls(self.resources@),
            pass_decls(self.passes@),
            self.ordering@,
            self.surface_size,
        )
    }
}

/// Hands out another reference to a shared layout: `Arc::clone`, which copies the pointer and
/// leaves the value as it is.
#[verifier::external_body]
fn share(layout: &Arc<GraphLayout>) -> (copy: Arc<GraphLayout>)
    ensures
        copy == *layout,
{
    Arc::clone(layout)
}

/// Memoizing compiler of declaration snapshots.
#[derive(Debug)]
pub struct TransientPool {
    snapshot: Option<(u64, Arc<GraphLayout>)>,
    computations: u32,
}

impl TransientPool {
    /// The cached layout and the generation that it was compiled at.
    pub closed spec fn cache(self) -> Option<(u64, GraphLayout)> {
        match self.snapshot {
            None => None,
            Some((generation, layout)) => Some((generation, *layout)),
        }
    }

    /// How often a layout has been compiled.
    pub closed spec fn compiled(self) -> u32 {
        self.computations
    }

    /// A pool that has compiled nothing.
    pub fn new() -> (pool: TransientPool)
        ensures
            pool.cache() is None,
            pool.compiled() == 0,
    {
        TransientPool { snapshot: None, computations: 0 }
    }

    /// Drops the cached layout.
    pub fn invalidate(&mut self)
        ensures
            final(self).cache() is None,
            final(self).compiled() == old(self).compiled(),
    {
        self.snapshot = None;
    }

    /// The cached layout, if any.
    pub fn cached(&self) -> (layout: Option<&GraphLayout>)
        ensures
            match self.cache() {
                None => layout is None,
                Some((_, l)) => layout == Some(&l),
            },
    {
        match &self.snapshot {
            None => None,
            Some((_, layout)) => Some(&**layout),
        }
    }

    /// How often a layout has been compiled: stays flat while the cache holds.
    pub fn layout_computations(&self) -> (n: u32)
        ensures
            n == self.compiled(),
    {
        self.computations
    }

    /// The layout at `generation`: the cached one if it was compiled at that generation, else
    /// the compiled input, which is cached if it fits the budget. Nothing is cached otherwise.
    pub fn ensure(&mut self, generation: u64, input: &PoolInput<'_>) -> (res: Result<
        Arc<GraphLayout>,
        BudgetExceeded,
    >)
        requires
            input.ok(),
        ensures
            old(self).cache() is Some && (old(self).cache()->0).0 == generation ==> {
                &&& res is Ok
                &&& *res->Ok_0 == (old(self).cache()->0).1
                &&& final(self).cache() == old(self).cache()
                &&& final(self).compiled() == old(self).compiled()
            },
            !(old(self).cache() is Some && (old(self).cache()->0).0 == generation) ==> {
                &&& final(self).compiled() == old(self).compiled().wrapping_add(1)
                &&& match res {
                    Ok(layout) => {
                        &&& input.compiles_to(*layout)
                        &&& input.budget.admits(*layout)
                        &&& final(self).cache() == Some((generation, *layout))
                    },
                    Err(e) => {
                        &&& final(self).cache() is None
                        &&& exists|layout: GraphLayout| #[trigger]
                            input.compiles_to(layout) && !input.budget.admits(layout) && exceeds(
                                e,
                                layout,
                                input.budget.limit->0,
                            )
                    },
                }
            },
    {
        if let Some((at, layout)) = &self.snapshot {
            if *at == generation {
                return Ok(share(layout));
            }
        }
        let layout = compile_layout(
            input.resources,
            input.passes,
            input.ordering,
            input.surface_size,
        );
        self.computations = self.computations.wrapping_add(1);
        match check_budget(&layout, input.budget) {
            Err(e) => {
                assert(input.compiles_to(layout));
                self.snapshot = None;
                Err(e)
            },
            Ok(()) => {
                let shared = Arc::new(layout);
                self.snapshot = Some((generation, share(&shared)));
                Ok(shared)
            },
        }
    }
}

} // verus!
