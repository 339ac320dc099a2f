//! What a frame is declared to be: textures, passes and their mathematical views.
//!
//! The executable records ([`ResourceNode`], [`PassNode`]) hold strings and vectors;
//! contracts speak of their views ([`ResourceDecl`], [`PassDecl`]).
use vstd::prelude::*;

verus! {

/// Pixel format of a texture.
#[derive(Debug, Clone, Copy, PartialEq, Eq, Hash, Structural)]
pub enum TextureFormat {
    Rgba8Unorm,
    Rgba8UnormSrgb,
    Bgra8Unorm,
    Bgra8UnormSrgb,
    Rg16Float,
    R32Uint,
    R32Float,
    Rgba16Float,
    Rgba32Float,
    Depth32Float,
}

/// Texture size policy.
#[derive(Debug, Clone, Copy, PartialEq, Eq, Hash, Structural)]
pub enum SizePolicy {
    /// Size matches the surface (swapchain) size.
    MatchSurface,
    /// Surface size divided by the divisor, at least one pixel on each axis.
    Fraction(u32),
    /// Fixed size.
    Fixed { width: u32, height: u32 },
}

/// Texture specification: the pool reuse key.
#[derive(Debug, Clone, Copy, PartialEq, Eq, Hash, Structural)]
pub struct TextureSpec {
    pub format: TextureFormat,
    pub samples: u32,
    pub size: SizePolicy,
}

/// Logical resource handle.
#[derive(Debug, Clone, Copy, PartialEq, Eq, Hash, Structural)]
pub struct ResourceId(pub u32);

/// Logical pass handle.
#[derive(Debug, Clone, Copy, PartialEq, Eq, Hash, Structural)]
pub struct PassId(pub u32);

/// A clear value: the four channels as the bit patterns of 64-bit IEEE numbers, so that a
/// value handed in comes back exactly.
#[derive(Debug, Clone, Copy, PartialEq, Eq, Hash, Structural)]
pub struct Color {
    pub r: u64,
    pub g: u64,
    pub b: u64,
    pub a: u64,
}

/// Bit pattern of the 64-bit IEEE number one.
pub const ONE_BITS: u64 = 0x3FF0_0000_0000_0000;

impl Color {
    /// Opaque black.
    pub fn black() -> (c: Color)
        ensures
            c == black(),
    {
        Color { r: 0, g: 0, b: 0, a: ONE_BITS }
    }

    /// Opaque white.
    pub fn white() -> (c: Color)
        ensures
            c == white(),
    {
        Color { r: ONE_BITS, g: ONE_BITS, b: ONE_BITS, a: ONE_BITS }
    }

    /// Transparent black.
    pub fn transparent() -> (c: Color)
        ensures
            c == transparent(),
    {
        Color { r: 0, g: 0, b: 0, a: 0 }
    }
}

/// Opaque black.
pub open spec fn black() -> Color {
    Color { r: 0, g: 0, b: 0, a: ONE_BITS }
}

/// Opaque white.
pub open spec fn white() -> Color {
    Color { r: ONE_BITS, g: ONE_BITS, b: ONE_BITS, a: ONE_BITS }
}

/// Transparent black.
pub open spec fn transparent() -> Color {
    Color { r: 0, g: 0, b: 0, a: 0 }
}

/// One registered resource.
#[derive(Debug)]
pub struct ResourceNode {
    pub name: String,
    pub spec: TextureSpec,
    /// The "first touch must be a write" rule does not apply to an imported resource.
    pub imported: bool,
    /// Backed by a view that the caller provides; never pooled.
    pub external: bool,
}

/// One registered pass.
#[derive(Debug)]
pub struct PassNode {
    pub name: String,
    pub reads: Vec<ResourceId>,
    /// Written resources; `Some` carries a clear value.
    pub writes: Vec<(ResourceId, Option<Color>)>,
    pub enabled: bool,
}

/// View of a [`ResourceNode`].
#[verifier::ext_equal]
pub struct ResourceDecl {
    pub name: Seq<char>,
    pub spec: TextureSpec,
    pub imported: bool,
    pub external: bool,
}

/// View of a [`PassNode`].
#[verifier::ext_equal]
pub struct PassDecl {
    pub name: Seq<char>,
    pub reads: Seq<ResourceId>,
    pub writes: Seq<(ResourceId, Option<Color>)>,
    pub enabled: bool,
}

impl View for ResourceNode {
    type V = ResourceDecl;

    open spec fn view(&self) -> ResourceDecl {
        ResourceDecl {
            name: self.name@,
            spec: self.spec,
            imported: self.imported,
            external: self.external,
        }
    }
}

impl View for PassNode {
    type V = PassDecl;

    open spec fn view(&self) -> PassDecl {
        PassDecl {
            name: self.name@,
            reads: self.reads@,
            writes: self.writes@,
            enabled: self.enabled,
        }
    }
}

/// Views of a list of resources.
pub open spec fn resource_decls(nodes: Seq<ResourceNode>) -> Seq<ResourceDecl> {
    nodes.map_values(|n: ResourceNode| n@)
}

/// Views of a list of passes.
pub open spec fn pass_decls(nodes: Seq<PassNode>) -> Seq<PassDecl> {
    nodes.map_values(|n: PassNode| n@)
}

/// `p` declares a read of `r`.
pub open spec fn reads_of(p: PassDecl, r: ResourceId) -> bool {
    p.reads.contains(r)
}

/// `p` declares a write of `r`, with or without a clear value.
pub open spec fn writes_of(p: PassDecl, r: ResourceId) -> bool {
    exists|k: int| 0 <= k < p.writes.len() && (#[trigger] p.writes[k]).0 == r
}

/// `p` declares some access to `r`.
pub open spec fn touches(p: PassDecl, r: ResourceId) -> bool {
    reads_of(p, r) || writes_of(p, r)
}

/// Registration indices of the enabled passes, in registration order.
pub open spec fn enabled_ids(passes: Seq<PassDecl>) -> Seq<int>
    decreases passes.len(),
{
    if passes.len() == 0 {
        Seq::empty()
    } else {
        let earlier = enabled_ids(passes.drop_last());
        if passes.last().enabled {
            earlier.push(passes.len() - 1)
        } else {
            earlier
        }
    }
}

/// The passes that execute, in order.
pub open spec fn frame_of(passes: Seq<PassDecl>) -> Seq<PassDecl> {
    enabled_ids(passes).map_values(|i: int| passes[i])
}

/// Every access names a registered resource.
pub open spec fn ids_in_range(passes: Seq<PassDecl>, count: nat) -> bool {
    forall|p: int, r: ResourceId|
        0 <= p < passes.len() && #[trigger] touches(passes[p], r) ==> r.0 < count
}

/// Some executing pass accesses `r`.
pub open spec fn is_used(frame: Seq<PassDecl>, r: ResourceId) -> bool {
    exists|i: int| 0 <= i < frame.len() && #[trigger] touches(frame[i], r)
}

/// Pass `i` reads `r` although neither it nor any pass before it writes `r`.
pub open spec fn reads_unwritten(frame: Seq<PassDecl>, i: int, r: ResourceId) -> bool {
    &&& 0 <= i < frame.len()
    &&& reads_of(frame[i], r)
    &&& forall|k: int| 0 <= k <= i ==> !#[trigger] writes_of(frame[k], r)
}

/// The first-touch rule: a resource that is not imported is written no later than the pass
/// that first reads it.
pub open spec fn first_touch_ok(resources: Seq<ResourceDecl>, frame: Seq<PassDecl>) -> bool {
    forall|i: int, r: ResourceId|
        #[trigger] reads_unwritten(frame, i, r) ==> resources[r.0 as int].imported
}

/// `enabled_ids` holds exactly the indices of the enabled passes, ascending.
pub(crate) proof fn lemma_enabled_ids(passes: Seq<PassDecl>)
    ensures
        enabled_ids(passes).len() <= passes.len(),
        forall|a: int|
            0 <= a < enabled_ids(passes).len() ==> 0 <= #[trigger] enabled_ids(passes)[a]
                < passes.len() && passes[enabled_ids(passes)[a]].enabled,
        forall|a: int, b: int|
            0 <= a < b < enabled_ids(passes).len() ==> #[trigger] enabled_ids(passes)[a]
                < #[trigger] enabled_ids(passes)[b],
        forall|i: int|
            0 <= i < passes.len() && (#[trigger] passes[i]).enabled ==> enabled_ids(
                passes,
            ).contains(i),
    decreases passes.len(),
{
    if passes.len() > 0 {
        let before = passes.drop_last();
        lemma_enabled_ids(before);
        let ids = enabled_ids(passes);
        let earlier = enabled_ids(before);
        assert forall|a: int| 0 <= a < ids.len() implies 0 <= #[trigger] ids[a] < passes.len()
            && passes[ids[a]].enabled by {
            if a < earlier.len() {
                assert(ids[a] == earlier[a]);
                assert(before[earlier[a]] == passes[earlier[a]]);
            }
        }
        assert forall|a: int, b: int| 0 <= a < b < ids.len() implies #[trigger] ids[a]
            < #[trigger] ids[b] by {
            assert(ids[a] == earlier[a]);
            if b < earlier.len() {
                assert(ids[b] == earlier[b]);
            }
        }
        assert forall|i: int| 0 <= i < passes.len() && (
        #[trigger] passes[i]).enabled implies ids.contains(i) by {
            if i < before.len() {
                assert(before[i] == passes[i]);
                let a = choose|a: int| 0 <= a < earlier.len() && earlier[a] == i;
                assert(ids[a] == i);
            } else {
                assert(ids[ids.len() - 1] == i);
            }
        }
    }
}

} // verus!
