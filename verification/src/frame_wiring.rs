//! The wiring of the 3D frame: which resources and passes each technique declares.
use vstd::prelude::*;

use crate::declarations::{Color, ResourceId, TextureFormat};
#[allow(unused_imports)]
use crate::declarations::{black, transparent, white, PassDecl, ResourceDecl};
use crate::frame_passes::{
    Albedo, Bloom0, Bloom1, Bloom2, Depth, Hdr, HdrFwd, MaterialId, MaterialParams, Normal,
    Target, WorldPosition,
};
#[allow(unused_imports)]
use crate::system::{
    all_registered, resolve_type, typed_decl, typed_pass, AccessView, FrameResource, PassBody,
};

verus! {

/// Which lighting technique the frame wires up, expressed purely as which passes exist.
#[derive(Debug, Clone, Copy, PartialEq, Eq, Structural)]
pub enum Technique {
    /// Only the forward pass: no G-buffer, no lighting pass.
    Forward,
    /// Only the deferred chain: gbuffer, lighting, composite.
    Deferred,
    /// Both: opaque lighting through the G-buffer, forward work on top.
    Hybrid,
}

impl Technique {
    /// The deferred passes exist.
    pub open spec fn deferred(self) -> bool {
        self != Technique::Forward
    }

    /// The forward pass exists.
    pub open spec fn forward(self) -> bool {
        self != Technique::Deferred
    }

    /// Composite shader mode.
    pub open spec fn mode(self) -> u32 {
        match self {
            Technique::Forward => 1,
            Technique::Deferred => 0,
            Technique::Hybrid => 2,
        }
    }

    /// Whether the `gbuffer` and `lighting` passes exist for this technique.
    pub fn has_deferred(&self) -> (yes: bool)
        ensures
            yes == self.deferred(),
    {
        !matches!(self, Technique::Forward)
    }

    /// Whether the `forward` pass exists for this technique.
    pub fn has_forward(&self) -> (yes: bool)
        ensures
            yes == self.forward(),
    {
        !matches!(self, Technique::Deferred)
    }

    /// Composite shader mode: 0 deferred-only, 1 forward-only, 2 hybrid (deferred with forward
    /// over it).
    pub fn composite_mode(&self) -> (m: u32)
        ensures
            m == self.mode(),
    {
        match self {
            Technique::Forward => 1,
            Technique::Deferred => 0,
            Technique::Hybrid => 2,
        }
    }
}

/// Resource handles of the 3D frame.
#[derive(Debug, Clone, Copy, PartialEq, Eq, Structural)]
pub struct FrameIds {
    /// Albedo G-buffer target.
    pub albedo: ResourceId,
    /// World-space normal target.
    pub normal: ResourceId,
    /// Material id target.
    pub material_id: ResourceId,
    /// World-space position target.
    pub world_position: ResourceId,
    /// Material parameter target.
    pub material_params: ResourceId,
    /// Depth buffer (owned by the G-buffer pass or by the forward pass, per technique).
    pub depth: ResourceId,
    /// Deferred HDR color layer.
    pub hdr: ResourceId,
    /// Forward HDR color layer.
    pub hdr_fwd: ResourceId,
    /// External output (swapchain view).
    pub target: ResourceId,
    /// First bloom level (1/2 surface). Always declared; pooled only if the bloom passes exist.
    pub bloom0: ResourceId,
    /// Second bloom level (1/4 surface).
    pub bloom1: ResourceId,
    /// Third bloom level (1/8 surface).
    pub bloom2: ResourceId,
}

/// The handles that the frame hands out: one per type, in registration order.
pub open spec fn frame_ids() -> FrameIds {
    FrameIds {
        albedo: ResourceId(Albedo::key_of()),
        normal: ResourceId(Normal::key_of()),
        material_id: ResourceId(MaterialId::key_of()),
        world_position: ResourceId(WorldPosition::key_of()),
        material_params: ResourceId(MaterialParams::key_of()),
        depth: ResourceId(Depth::key_of()),
        hdr: ResourceId(Hdr::key_of()),
        hdr_fwd: ResourceId(HdrFwd::key_of()),
        target: ResourceId(Target::key_of()),
        bloom0: ResourceId(Bloom0::key_of()),
        bloom1: ResourceId(Bloom1::key_of()),
        bloom2: ResourceId(Bloom2::key_of()),
    }
}

/// The resources of the frame, whatever the technique.
pub open spec fn frame_resources(format: TextureFormat) -> Seq<ResourceDecl> {
    seq![
        typed_decl::<Albedo>(format),
        typed_decl::<Normal>(format),
        typed_decl::<MaterialId>(format),
        typed_decl::<WorldPosition>(format),
        typed_decl::<MaterialParams>(format),
        typed_decl::<Depth>(format),
        typed_decl::<Hdr>(format),
        typed_decl::<HdrFwd>(format),
        typed_decl::<Target>(format),
        typed_decl::<Bloom0>(format),
        typed_decl::<Bloom1>(format),
        typed_decl::<Bloom2>(format),
    ]
}

/// The type of every resource of the frame.
pub open spec fn frame_types() -> Seq<Option<u32>> {
    Seq::new(12, |i: int| Some(i as u32))
}

/// A pass declared by resource keys.
pub open spec fn keyed_pass(name: Seq<char>, access: AccessView) -> PassDecl {
    PassDecl {
        name,
        reads: access.reads.map_values(|k: u32| ResourceId(k)),
        writes: access.writes.map_values(|w: (u32, Option<Color>)| (ResourceId(w.0), w.1)),
        enabled: true,
    }
}

/// Accesses of the G-buffer pass: it writes all six layers.
pub open spec fn gbuffer_access() -> AccessView {
    AccessView {
        reads: Seq::empty(),
        writes: seq![
            (Albedo::key_of(), None),
            (Normal::key_of(), None),
            (MaterialId::key_of(), None),
            (WorldPosition::key_of(), None),
            (MaterialParams::key_of(), None),
            (Depth::key_of(), None),
        ],
    }
}

/// Accesses of the lighting pass: it reads the six layers and clears the HDR layer to black.
pub open spec fn lighting_access() -> AccessView {
    AccessView {
        reads: seq![
            Albedo::key_of(),
            Normal::key_of(),
            MaterialId::key_of(),
            WorldPosition::key_of(),
            MaterialParams::key_of(),
            Depth::key_of(),
        ],
        writes: seq![(Hdr::key_of(), Some(black()))],
    }
}

/// Accesses of the forward pass: forward-only it clears the depth buffer to white, else it reads
/// it; either way it clears its HDR layer to transparent.
pub open spec fn forward_access(t: Technique) -> AccessView {
    if t == Technique::Forward {
        AccessView {
            reads: Seq::empty(),
            writes: seq![
                (Depth::key_of(), Some(white())),
                (HdrFwd::key_of(), Some(transparent())),
            ],
        }
    } else {
        AccessView {
            reads: seq![Depth::key_of()],
            writes: seq![(HdrFwd::key_of(), Some(transparent()))],
        }
    }
}

/// The HDR layer that feeds the bright pass: the one that the technique makes.
pub open spec fn bright_input(t: Technique) -> u32 {
    if t.deferred() {
        Hdr::key_of()
    } else {
        HdrFwd::key_of()
    }
}

/// Accesses of a bloom pass from one level to the next.
pub open spec fn bloom_access(from: u32, to: u32, clear: Option<Color>) -> AccessView {
    AccessView { reads: seq![from], writes: seq![(to, clear)] }
}

/// Layers that the composite pass mixes: those that the technique makes, and the bloom chain.
pub open spec fn composite_reads(t: Technique, bloom: bool) -> Seq<u32> {
    let layers = match t {
        Technique::Forward => seq![HdrFwd::key_of()],
        Technique::Deferred => seq![Hdr::key_of()],
        Technique::Hybrid => seq![Hdr::key_of(), HdrFwd::key_of()],
    };
    if bloom {
        layers.push(Bloom0::key_of())
    } else {
        layers
    }
}

/// Accesses of the composite pass.
pub open spec fn composite_access(t: Technique, bloom: bool) -> AccessView {
    AccessView { reads: composite_reads(t, bloom), writes: seq![(Target::key_of(), None)] }
}

/// The deferred passes.
pub open spec fn deferred_passes() -> Seq<PassDecl> {
    seq![
        keyed_pass("gbuffer"@, gbuffer_access()),
        keyed_pass("lighting"@, lighting_access()),
    ]
}

/// The bloom chain: down to 1/8 of the surface and up again.
pub open spec fn bloom_passes(t: Technique) -> Seq<PassDecl> {
    let b0 = Bloom0::key_of();
    let b1 = Bloom1::key_of();
    let b2 = Bloom2::key_of();
    seq![
        keyed_pass("bloom_down0"@, bloom_access(bright_input(t), b0, Some(black()))),
        keyed_pass("bloom_down1"@, bloom_access(b0, b1, Some(black()))),
        keyed_pass("bloom_down2"@, bloom_access(b1, b2, Some(black()))),
        keyed_pass("bloom_up1"@, bloom_access(b2, b1, None)),
        keyed_pass("bloom_up0"@, bloom_access(b1, b0, None)),
    ]
}

/// The passes up to and without the bloom chain.
pub open spec fn layer_passes(t: Technique) -> Seq<PassDecl> {
    let deferred = if t.deferred() {
        deferred_passes()
    } else {
        Seq::empty()
    };
    if t.forward() {
        deferred.push(keyed_pass("forward"@, forward_access(t)))
    } else {
        deferred
    }
}

/// The passes of the frame, in execution order.
pub open spec fn frame_passes(t: Technique, bloom: bool) -> Seq<PassDecl> {
    let layers = if bloom {
        layer_passes(t) + bloom_passes(t)
    } else {
        layer_passes(t)
    };
    layers.push(keyed_pass("composite"@, composite_access(t, bloom)))
}

/// What the layer passes of the technique do.
pub open spec fn layer_bodies(t: Technique) -> Seq<Option<PassBody>> {
    let deferred = if t.deferred() {
        seq![Some(PassBody::Gbuffer), Some(PassBody::Lighting)]
    } else {
        Seq::empty()
    };
    if t.forward() {
        deferred.push(Some(PassBody::Forward { owns_depth: t == Technique::Forward }))
    } else {
        deferred
    }
}

/// What the bloom passes do.
pub open spec fn bloom_bodies(t: Technique) -> Seq<Option<PassBody>> {
    seq![
        Some(PassBody::BloomBright { from_forward: !t.deferred() }),
        Some(PassBody::BloomDown),
        Some(PassBody::BloomDown),
        Some(PassBody::BloomUp),
        Some(PassBody::BloomUp),
    ]
}

/// What the passes of the frame do, in execution order.
pub open spec fn frame_bodies(t: Technique, bloom: bool) -> Seq<Option<PassBody>> {
    let layers = if bloom {
        layer_bodies(t) + bloom_bodies(t)
    } else {
        layer_bodies(t)
    };
    layers.push(Some(PassBody::Composite { shader_mode: t.mode(), bloom }))
}

/// Types registered in the order of their keys resolve to their keys.
proof fn lemma_resolve_keyed(types: Seq<Option<u32>>, k: u32)
    requires
        types.len() <= u32::MAX,
        k < types.len(),
        forall|i: int| 0 <= i < types.len() ==> #[trigger] types[i] == Some(i as u32),
    ensures
        resolve_type(types, k) == Some(ResourceId(k)),
    decreases types.len(),
{
    if k < types.len() - 1 {
        lemma_resolve_keyed(types.drop_last(), k);
    }
}

/// A typed pass over the registered types is the pass declared by their keys.
pub(crate) proof fn lemma_typed_is_keyed(name: Seq<char>, access: AccessView)
    requires
        forall|k: int| 0 <= k < access.reads.len() ==> #[trigger] access.reads[k] < 12,
        forall|k: int| 0 <= k < access.writes.len() ==> (#[trigger] access.writes[k]).0 < 12,
    ensures
        all_registered(frame_types(), access),
        typed_pass(frame_types(), name, access) == keyed_pass(name, access),
{
    let types = frame_types();
    assert forall|k: u32| k < 12 implies #[trigger] resolve_type(types, k) == Some(
        ResourceId(k),
    ) by {
        lemma_resolve_keyed(types, k);
    }
    let a = typed_pass(types, name, access);
    let b = keyed_pass(name, access);
    assert(a.reads =~= b.reads);
    assert(a.writes =~= b.writes);
}

} // verus!
