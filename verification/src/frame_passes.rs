//! Typed resources and passes of the 3D frame.
//!
//! A resource's identity is its type; a pass declares its accesses by resource types. Access
//! sets that depend on the configuration (forward, bright pass, composite) are selected by a
//! mode type.
use std::marker::PhantomData;
use vstd::prelude::*;

use crate::declarations::{Color, SizePolicy, TextureFormat, TextureSpec};
#[allow(unused_imports)]
use crate::declarations::{black, transparent, white};
use crate::system::{FramePass, FrameResource, PassBody, ResourceOrigin, SystemAccess};
#[allow(unused_imports)]
use crate::system::AccessView;

verus! {

/// Specification of a single-sampled texture of the surface's size.
pub open spec fn surface_spec(format: TextureFormat) -> TextureSpec {
    TextureSpec { format, samples: 1, size: SizePolicy::MatchSurface }
}

/// Specification of a single-sampled texture of a fraction of the surface's size.
pub open spec fn fraction_spec(format: TextureFormat, divisor: u32) -> TextureSpec {
    TextureSpec { format, samples: 1, size: SizePolicy::Fraction(divisor) }
}

/// G-buffer albedo layer.
pub struct Albedo;

impl FrameResource for Albedo {
    open spec fn key_of() -> u32 {
        0
    }

    open spec fn name_text() -> Seq<char> {
        "albedo"@
    }

    open spec fn origin_of() -> ResourceOrigin {
        ResourceOrigin::PlanOwned
    }

    open spec fn spec_of(_surface_format: TextureFormat) -> TextureSpec {
        surface_spec(TextureFormat::Rgba8Unorm)
    }

    fn key() -> (k: u32) {
        0
    }

    fn name() -> (s: &'static str) {
        "albedo"
    }

    fn kind() -> (o: ResourceOrigin) {
        ResourceOrigin::PlanOwned
    }

    fn spec(_surface_format: TextureFormat) -> (s: TextureSpec) {
        TextureSpec { format: TextureFormat::Rgba8Unorm, samples: 1, size: SizePolicy::MatchSurface }
    }
}

/// G-buffer world-space normal layer.
pub struct Normal;

impl FrameResource for Normal {
    open spec fn key_of() -> u32 {
        1
    }

    open spec fn name_text() -> Seq<char> {
        "normal"@
    }

    open spec fn origin_of() -> ResourceOrigin {
        ResourceOrigin::PlanOwned
    }

    open spec fn spec_of(_surface_format: TextureFormat) -> TextureSpec {
        surface_spec(TextureFormat::Rg16Float)
    }

    fn key() -> (k: u32) {
        1
    }

    fn name() -> (s: &'static str) {
        "normal"
    }

    fn kind() -> (o: ResourceOrigin) {
        ResourceOrigin::PlanOwned
    }

    fn spec(_surface_format: TextureFormat) -> (s: TextureSpec) {
        TextureSpec { format: TextureFormat::Rg16Float, samples: 1, size: SizePolicy::MatchSurface }
    }
}

/// G-buffer material id layer.
pub struct MaterialId;

impl FrameResource for MaterialId {
    open spec fn key_of() -> u32 {
        2
    }

    open spec fn name_text() -> Seq<char> {
        "material_id"@
    }

    open spec fn origin_of() -> ResourceOrigin {
        ResourceOrigin::PlanOwned
    }

    open spec fn spec_of(_surface_format: TextureFormat) -> TextureSpec {
        surface_spec(TextureFormat::R32Uint)
    }

    fn key() -> (k: u32) {
        2
    }

    fn name() -> (s: &'static str) {
        "material_id"
    }

    fn kind() -> (o: ResourceOrigin) {
        ResourceOrigin::PlanOwned
    }

    fn spec(_surface_format: TextureFormat) -> (s: TextureSpec) {
        TextureSpec { format: TextureFormat::R32Uint, samples: 1, size: SizePolicy::MatchSurface }
    }
}

/// G-buffer world-space position layer.
pub struct WorldPosition;

impl FrameResource for WorldPosition {
    open spec fn key_of() -> u32 {
        3
    }

    open spec fn name_text() -> Seq<char> {
        "world_position"@
    }

    open spec fn origin_of() -> ResourceOrigin {
        ResourceOrigin::PlanOwned
    }

    open spec fn spec_of(_surface_format: TextureFormat) -> TextureSpec {
        surface_spec(TextureFormat::Rg16Float)
    }

    fn key() -> (k: u32) {
        3
    }

    fn name() -> (s: &'static str) {
        "world_position"
    }

    fn kind() -> (o: ResourceOrigin) {
        ResourceOrigin::PlanOwned
    }

    fn spec(_surface_format: TextureFormat) -> (s: TextureSpec) {
        TextureSpec { format: TextureFormat::Rg16Float, samples: 1, size: SizePolicy::MatchSurface }
    }
}

/// G-buffer material params layer.
pub struct MaterialParams;

impl FrameResource for MaterialParams {
    open spec fn key_of() -> u32 {
        4
    }

    open spec fn name_text() -> Seq<char> {
        "material_params"@
    }

    open spec fn origin_of() -> ResourceOrigin {
        ResourceOrigin::PlanOwned
    }

    open spec fn spec_of(_surface_format: TextureFormat) -> TextureSpec {
        surface_spec(TextureFormat::Rgba16Float)
    }

    fn key() -> (k: u32) {
        4
    }

    fn name() -> (s: &'static str) {
        "material_params"
    }

    fn kind() -> (o: ResourceOrigin) {
        ResourceOrigin::PlanOwned
    }

    fn spec(_surface_format: TextureFormat) -> (s: TextureSpec) {
        TextureSpec { format: TextureFormat::Rgba16Float, samples: 1, size: SizePolicy::MatchSurface }
    }
}

/// Depth buffer.
pub struct Depth;

impl FrameResource for Depth {
    open spec fn key_of() -> u32 {
        5
    }

    open spec fn name_text() -> Seq<char> {
        "depth"@
    }

    open spec fn origin_of() -> ResourceOrigin {
        ResourceOrigin::PlanOwned
    }

    open spec fn spec_of(_surface_format: TextureFormat) -> TextureSpec {
        surface_spec(TextureFormat::Depth32Float)
    }

    fn key() -> (k: u32) {
        5
    }

    fn name() -> (s: &'static str) {
        "depth"
    }

    fn kind() -> (o: ResourceOrigin) {
        ResourceOrigin::PlanOwned
    }

    fn spec(_surface_format: TextureFormat) -> (s: TextureSpec) {
        TextureSpec { format: TextureFormat::Depth32Float, samples: 1, size: SizePolicy::MatchSurface }
    }
}

/// HDR layer of the deferred path; mirrors the surface format.
pub struct Hdr;

impl FrameResource for Hdr {
    open spec fn key_of() -> u32 {
        6
    }

    open spec fn name_text() -> Seq<char> {
        "hdr"@
    }

    open spec fn origin_of() -> ResourceOrigin {
        ResourceOrigin::PlanOwned
    }

    open spec fn spec_of(surface_format: TextureFormat) -> TextureSpec {
        surface_spec(surface_format)
    }

    fn key() -> (k: u32) {
        6
    }

    fn name() -> (s: &'static str) {
        "hdr"
    }

    fn kind() -> (o: ResourceOrigin) {
        ResourceOrigin::PlanOwned
    }

    fn spec(surface_format: TextureFormat) -> (s: TextureSpec) {
        TextureSpec { format: surface_format, samples: 1, size: SizePolicy::MatchSurface }
    }
}

/// HDR layer of the forward path.
pub struct HdrFwd;

impl FrameResource for HdrFwd {
    open spec fn key_of() -> u32 {
        7
    }

    open spec fn name_text() -> Seq<char> {
        "hdr_fwd"@
    }

    open spec fn origin_of() -> ResourceOrigin {
        ResourceOrigin::PlanOwned
    }

    open spec fn spec_of(_surface_format: TextureFormat) -> TextureSpec {
        surface_spec(TextureFormat::Rgba16Float)
    }

    fn key() -> (k: u32) {
        7
    }

    fn name() -> (s: &'static str) {
        "hdr_fwd"
    }

    fn kind() -> (o: ResourceOrigin) {
        ResourceOrigin::PlanOwned
    }

    fn spec(_surface_format: TextureFormat) -> (s: TextureSpec) {
        TextureSpec { format: TextureFormat::Rgba16Float, samples: 1, size: SizePolicy::MatchSurface }
    }
}

/// Swapchain target (externally backed view, never pooled).
pub struct Target;

impl FrameResource for Target {
    open spec fn key_of() -> u32 {
        8
    }

    open spec fn name_text() -> Seq<char> {
        "target"@
    }

    open spec fn origin_of() -> ResourceOrigin {
        ResourceOrigin::ExternalOutput
    }

    open spec fn spec_of(_surface_format: TextureFormat) -> TextureSpec {
        surface_spec(TextureFormat::Rgba8Unorm)
    }

    fn key() -> (k: u32) {
        8
    }

    fn name() -> (s: &'static str) {
        "target"
    }

    fn kind() -> (o: ResourceOrigin) {
        ResourceOrigin::ExternalOutput
    }

    fn spec(_surface_format: TextureFormat) -> (s: TextureSpec) {
        TextureSpec { format: TextureFormat::Rgba8Unorm, samples: 1, size: SizePolicy::MatchSurface }
    }
}

/// Bloom level at 1/2 of the surface.
pub struct Bloom0;

impl FrameResource for Bloom0 {
    open spec fn key_of() -> u32 {
        9
    }

    open spec fn name_text() -> Seq<char> {
        "bloom0"@
    }

    open spec fn origin_of() -> ResourceOrigin {
        ResourceOrigin::PlanOwned
    }

    open spec fn spec_of(_surface_format: TextureFormat) -> TextureSpec {
        fraction_spec(TextureFormat::Rgba16Float, 2)
    }

    fn key() -> (k: u32) {
        9
    }

    fn name() -> (s: &'static str) {
        "bloom0"
    }

    fn kind() -> (o: ResourceOrigin) {
        ResourceOrigin::PlanOwned
    }

    fn spec(_surface_format: TextureFormat) -> (s: TextureSpec) {
        TextureSpec { format: TextureFormat::Rgba16Float, samples: 1, size: SizePolicy::Fraction(2) }
    }
}

/// Bloom level at 1/4 of the surface.
pub struct Bloom1;

impl FrameResource for Bloom1 {
    open spec fn key_of() -> u32 {
        10
    }

    open spec fn name_text() -> Seq<char> {
        "bloom1"@
    }

    open spec fn origin_of() -> ResourceOrigin {
        ResourceOrigin::PlanOwned
    }

    open spec fn spec_of(_surface_format: TextureFormat) -> TextureSpec {
        fraction_spec(TextureFormat::Rgba16Float, 4)
    }

    fn key() -> (k: u32) {
        10
    }

    fn name() -> (s: &'static str) {
        "bloom1"
    }

    fn kind() -> (o: ResourceOrigin) {
        ResourceOrigin::PlanOwned
    }

    fn spec(_surface_format: TextureFormat) -> (s: TextureSpec) {
        TextureSpec { format: TextureFormat::Rgba16Float, samples: 1, size: SizePolicy::Fraction(4) }
    }
}

/// Bloom level at 1/8 of the surface.
pub struct Bloom2;

impl FrameResource for Bloom2 {
    open spec fn key_of() -> u32 {
        11
    }

    open spec fn name_text() -> Seq<char> {
        "bloom2"@
    }

    open spec fn origin_of() -> ResourceOrigin {
        ResourceOrigin::PlanOwned
    }

    open spec fn spec_of(_surface_format: TextureFormat) -> TextureSpec {
        fraction_spec(TextureFormat::Rgba16Float, 8)
    }

    fn key() -> (k: u32) {
        11
    }

    fn name() -> (s: &'static str) {
        "bloom2"
    }

    fn kind() -> (o: ResourceOrigin) {
        ResourceOrigin::PlanOwned
    }

    fn spec(_surface_format: TextureFormat) -> (s: TextureSpec) {
        TextureSpec { format: TextureFormat::Rgba16Float, samples: 1, size: SizePolicy::Fraction(8) }
    }
}

/// G-buffer pass: writes all six G-buffer layers.
pub struct GbufferPass;

impl FramePass for GbufferPass {
    open spec fn name_text(&self) -> Seq<char> {
        "gbuffer"@
    }

    open spec fn access_of(&self) -> AccessView {
        AccessView {
            reads: Seq::empty(),
            writes: seq![(Albedo::key_of(), None), (Normal::key_of(), None), (MaterialId::key_of(), None), (WorldPosition::key_of(), None), (MaterialParams::key_of(), None), (Depth::key_of(), None)],
        }
    }

    open spec fn body_of(&self) -> PassBody {
        PassBody::Gbuffer
    }

    fn name(&self) -> (s: &'static str) {
        "gbuffer"
    }

    fn access(&self) -> (a: SystemAccess) {
        let a = SystemAccess {
            reads: Vec::new(),
            writes: vec![(Albedo::key(), None), (Normal::key(), None), (MaterialId::key(), None), (WorldPosition::key(), None), (MaterialParams::key(), None), (Depth::key(), None)],
        };
        assert(a@ =~= self.access_of());
        a
    }

    fn body(&self) -> (b: PassBody) {
        PassBody::Gbuffer
    }
}

/// Lighting pass: resolves the G-buffer into the HDR layer.
pub struct LightingPass;

impl FramePass for LightingPass {
    open spec fn name_text(&self) -> Seq<char> {
        "lighting"@
    }

    open spec fn access_of(&self) -> AccessView {
        AccessView {
            reads: seq![Albedo::key_of(), Normal::key_of(), MaterialId::key_of(), WorldPosition::key_of(), MaterialParams::key_of(), Depth::key_of()],
            writes: seq![(Hdr::key_of(), Some(black()))],
        }
    }

    open spec fn body_of(&self) -> PassBody {
        PassBody::Lighting
    }

    fn name(&self) -> (s: &'static str) {
        "lighting"
    }

    fn access(&self) -> (a: SystemAccess) {
        let a = SystemAccess {
            reads: vec![Albedo::key(), Normal::key(), MaterialId::key(), WorldPosition::key(), MaterialParams::key(), Depth::key()],
            writes: vec![(Hdr::key(), Some(Color::black()))],
        };
        assert(a@ =~= self.access_of());
        a
    }

    fn body(&self) -> (b: PassBody) {
        PassBody::Lighting
    }
}

/// Bloom downsample 1/2 to 1/4.
pub struct BloomDown1Pass;

impl FramePass for BloomDown1Pass {
    open spec fn name_text(&self) -> Seq<char> {
        "bloom_down1"@
    }

    open spec fn access_of(&self) -> AccessView {
        AccessView {
            reads: seq![Bloom0::key_of()],
            writes: seq![(Bloom1::key_of(), Some(black()))],
        }
    }

    open spec fn body_of(&self) -> PassBody {
        PassBody::BloomDown
    }

    fn name(&self) -> (s: &'static str) {
        "bloom_down1"
    }

    fn access(&self) -> (a: SystemAccess) {
        let a = SystemAccess {
            reads: vec![Bloom0::key()],
            writes: vec![(Bloom1::key(), Some(Color::black()))],
        };
        assert(a@ =~= self.access_of());
        a
    }

    fn body(&self) -> (b: PassBody) {
        PassBody::BloomDown
    }
}

/// Bloom downsample 1/4 to 1/8.
pub struct BloomDown2Pass;

impl FramePass for BloomDown2Pass {
    open spec fn name_text(&self) -> Seq<char> {
        "bloom_down2"@
    }

    open spec fn access_of(&self) -> AccessView {
        AccessView {
            reads: seq![Bloom1::key_of()],
            writes: seq![(Bloom2::key_of(), Some(black()))],
        }
    }

    open spec fn body_of(&self) -> PassBody {
        PassBody::BloomDown
    }

    fn name(&self) -> (s: &'static str) {
        "bloom_down2"
    }

    fn access(&self) -> (a: SystemAccess) {
        let a = SystemAccess {
            reads: vec![Bloom1::key()],
            writes: vec![(Bloom2::key(), Some(Color::black()))],
        };
        assert(a@ =~= self.access_of());
        a
    }

    fn body(&self) -> (b: PassBody) {
        PassBody::BloomDown
    }
}

/// Bloom upsample 1/8 to 1/4.
pub struct BloomUp1Pass;

impl FramePass for BloomUp1Pass {
    open spec fn name_text(&self) -> Seq<char> {
        "bloom_up1"@
    }

    open spec fn access_of(&self) -> AccessView {
        AccessView {
            reads: seq![Bloom2::key_of()],
            writes: seq![(Bloom1::key_of(), None)],
        }
    }

    open spec fn body_of(&self) -> PassBody {
        PassBody::BloomUp
    }

    fn name(&self) -> (s: &'static str) {
        "bloom_up1"
    }

    fn access(&self) -> (a: SystemAccess) {
        let a = SystemAccess {
            reads: vec![Bloom2::key()],
            writes: vec![(Bloom1::key(), None)],
        };
        assert(a@ =~= self.access_of());
        a
    }

    fn body(&self) -> (b: PassBody) {
        PassBody::BloomUp
    }
}

/// Bloom upsample 1/4 to 1/2.
pub struct BloomUp0Pass;

impl FramePass for BloomUp0Pass {
    open spec fn name_text(&self) -> Seq<char> {
        "bloom_up0"@
    }

    open spec fn access_of(&self) -> AccessView {
        AccessView {
            reads: seq![Bloom1::key_of()],
            writes: seq![(Bloom0::key_of(), None)],
        }
    }

    open spec fn body_of(&self) -> PassBody {
        PassBody::BloomUp
    }

    fn name(&self) -> (s: &'static str) {
        "bloom_up0"
    }

    fn access(&self) -> (a: SystemAccess) {
        let a = SystemAccess {
            reads: vec![Bloom1::key()],
            writes: vec![(Bloom0::key(), None)],
        };
        assert(a@ =~= self.access_of());
        a
    }

    fn body(&self) -> (b: PassBody) {
        PassBody::BloomUp
    }
}

/// Depth ownership of the forward pass: forward-only clears the depth itself; hybrid reads the
/// one that the G-buffer pass filled.
pub trait ForwardMode {
    /// Declared accesses.
    spec fn access_of() -> AccessView;

    /// Whether the pass clears the depth buffer.
    spec fn owns_depth_of() -> bool;

    /// Declared accesses.
    fn access() -> (a: SystemAccess)
        ensures
            a@ == Self::access_of(),
    ;

    /// Whether the pass clears the depth buffer.
    fn owns_depth() -> (yes: bool)
        ensures
            yes == Self::owns_depth_of(),
    ;
}

/// Forward-only technique: the pass owns (clears) the depth buffer.
pub struct OwnsDepth;

impl ForwardMode for OwnsDepth {
    open spec fn access_of() -> AccessView {
        AccessView {
            reads: Seq::empty(),
            writes: seq![(Depth::key_of(), Some(white())), (HdrFwd::key_of(), Some(transparent()))],
        }
    }

    open spec fn owns_depth_of() -> bool {
        true
    }

    fn access() -> (a: SystemAccess) {
        let a = SystemAccess {
            reads: Vec::new(),
            writes: vec![(Depth::key(), Some(Color::white())), (HdrFwd::key(), Some(Color::transparent()))],
        };
        assert(a@ =~= Self::access_of());
        a
    }

    fn owns_depth() -> (yes: bool) {
        true
    }
}

/// Hybrid technique: the G-buffer pass owns the depth buffer.
pub struct SharedDepth;

impl ForwardMode for SharedDepth {
    open spec fn access_of() -> AccessView {
        AccessView {
            reads: seq![Depth::key_of()],
            writes: seq![(HdrFwd::key_of(), Some(transparent()))],
        }
    }

    open spec fn owns_depth_of() -> bool {
        false
    }

    fn access() -> (a: SystemAccess) {
        let a = SystemAccess {
            reads: vec![Depth::key()],
            writes: vec![(HdrFwd::key(), Some(Color::transparent()))],
        };
        assert(a@ =~= Self::access_of());
        a
    }

    fn owns_depth() -> (yes: bool) {
        false
    }
}

/// The forward pass; `M` selects the depth-ownership mode.
pub struct Forward<M: ForwardMode> {
    mode: PhantomData<M>,
}

impl<M: ForwardMode> Forward<M> {
    /// The pass in its mode.
    pub fn new() -> (p: Forward<M>)
        ensures
            p.access_of() == M::access_of(),
            p.body_of() == (PassBody::Forward { owns_depth: M::owns_depth_of() }),
    {
        Forward { mode: PhantomData }
    }
}

impl<M: ForwardMode> FramePass for Forward<M> {
    open spec fn name_text(&self) -> Seq<char> {
        "forward"@
    }

    open spec fn access_of(&self) -> AccessView {
        M::access_of()
    }

    open spec fn body_of(&self) -> PassBody {
        PassBody::Forward { owns_depth: M::owns_depth_of() }
    }

    fn name(&self) -> (s: &'static str) {
        "forward"
    }

    fn access(&self) -> (a: SystemAccess) {
        M::access()
    }

    fn body(&self) -> (b: PassBody) {
        PassBody::Forward { owns_depth: M::owns_depth() }
    }
}

/// Which HDR layer feeds the bright pass: the one that the technique made.
pub trait BrightInput {
    /// Key of the layer.
    spec fn input_of() -> u32;

    /// Key of the layer.
    fn input() -> (k: u32)
        ensures
            k == Self::input_of(),
    ;
}

/// Deferred and hybrid: `hdr`, filled by the lighting pass.
pub struct FromDeferred;

impl BrightInput for FromDeferred {
    open spec fn input_of() -> u32 {
        Hdr::key_of()
    }

    fn input() -> (k: u32) {
        Hdr::key()
    }
}

/// Forward-only: `hdr_fwd`, filled by the forward pass.
pub struct FromForward;

impl BrightInput for FromForward {
    open spec fn input_of() -> u32 {
        HdrFwd::key_of()
    }

    fn input() -> (k: u32) {
        HdrFwd::key()
    }
}

/// The bright-pass downsample (surface to 1/2); `I` selects the input.
pub struct BloomBright<I: BrightInput> {
    input: PhantomData<I>,
}

impl<I: BrightInput> BloomBright<I> {
    /// The pass with its input.
    pub fn new() -> (p: BloomBright<I>)
        ensures
            p.access_of() == (AccessView {
                reads: seq![I::input_of()],
                writes: seq![(Bloom0::key_of(), Some(black()))],
            }),
            p.body_of() == (PassBody::BloomBright {
                from_forward: I::input_of() == HdrFwd::key_of(),
            }),
    {
        BloomBright { input: PhantomData }
    }
}

impl<I: BrightInput> FramePass for BloomBright<I> {
    open spec fn name_text(&self) -> Seq<char> {
        "bloom_down0"@
    }

    open spec fn access_of(&self) -> AccessView {
        AccessView {
            reads: seq![I::input_of()],
            writes: seq![(Bloom0::key_of(), Some(black()))],
        }
    }

    open spec fn body_of(&self) -> PassBody {
        PassBody::BloomBright { from_forward: I::input_of() == HdrFwd::key_of() }
    }

    fn name(&self) -> (s: &'static str) {
        "bloom_down0"
    }

    fn access(&self) -> (a: SystemAccess) {
        let a = SystemAccess {
            reads: vec![I::input()],
            writes: vec![(Bloom0::key(), Some(Color::black()))],
        };
        assert(a@ =~= self.access_of());
        a
    }

    fn body(&self) -> (b: PassBody) {
        PassBody::BloomBright { from_forward: I::input() == HdrFwd::key() }
    }
}

/// What the composite shader is bound to, by resource key.
#[derive(Debug, Clone, Copy, PartialEq, Eq, Structural)]
pub struct CompositeInputs {
    /// Output.
    pub target: u32,
    /// Deferred-lit HDR layer.
    pub hdr: u32,
    /// Forward-lit HDR layer.
    pub hdr_fwd: u32,
    /// Bloom contribution.
    pub bloom: u32,
    /// Whether the bloom contribution counts (intensity one) or not (intensity zero).
    pub bloom_on: bool,
    /// Layer mix selector in the shader: 0 deferred-only, 1 forward-only, 2 hybrid.
    pub mode: u32,
}

impl CompositeInputs {
    /// Every bound layer is among the declared reads, and the output is the target.
    pub open spec fn binds_declared(self, reads: Seq<u32>) -> bool {
        &&& self.target == Target::key_of()
        &&& reads.contains(self.hdr)
        &&& reads.contains(self.hdr_fwd)
        &&& reads.contains(self.bloom)
    }
}

/// Which HDR layers exist and whether the bloom chain feeds the mix.
pub trait CompositeMode {
    /// Keys of the layers that the mode reads.
    spec fn reads_of() -> Seq<u32>;

    /// What the shader is bound to.
    spec fn inputs_of() -> CompositeInputs;

    /// Keys of the layers that the mode reads.
    fn reads() -> (r: Vec<u32>)
        ensures
            r@ == Self::reads_of(),
    ;

    /// Binds the shader inputs. Layers that the technique does not produce are bound to a layer
    /// that the pass declares, with no effect: the shader picks by `mode`.
    fn inputs() -> (i: CompositeInputs)
        ensures
            i == Self::inputs_of(),
            i.binds_declared(Self::reads_of()),
    ;
}

/// Deferred and bloom.
pub struct CompositeDeferredBloom;

impl CompositeMode for CompositeDeferredBloom {
    open spec fn reads_of() -> Seq<u32> {
        seq![Hdr::key_of(), Bloom0::key_of()]
    }

    open spec fn inputs_of() -> CompositeInputs {
        CompositeInputs {
            target: Target::key_of(),
            hdr: Hdr::key_of(),
            hdr_fwd: Hdr::key_of(),
            bloom: Bloom0::key_of(),
            bloom_on: true,
            mode: 0,
        }
    }

    fn reads() -> (r: Vec<u32>) {
        let r: Vec<u32> = vec![Hdr::key(), Bloom0::key()];
        assert(r@ =~= Self::reads_of());
        r
    }

    fn inputs() -> (i: CompositeInputs) {
        assert(Self::reads_of()[0] == Hdr::key_of());
        assert(Self::reads_of()[1] == Bloom0::key_of());
        CompositeInputs {
            target: Target::key(),
            hdr: Hdr::key(),
            hdr_fwd: Hdr::key(),
            bloom: Bloom0::key(),
            bloom_on: true,
            mode: 0,
        }
    }
}

/// Deferred, bloom culled.
pub struct CompositeDeferred;

impl CompositeMode for CompositeDeferred {
    open spec fn reads_of() -> Seq<u32> {
        seq![Hdr::key_of()]
    }

    open spec fn inputs_of() -> CompositeInputs {
        CompositeInputs {
            target: Target::key_of(),
            hdr: Hdr::key_of(),
            hdr_fwd: Hdr::key_of(),
            bloom: Hdr::key_of(),
            bloom_on: false,
            mode: 0,
        }
    }

    fn reads() -> (r: Vec<u32>) {
        let r: Vec<u32> = vec![Hdr::key()];
        assert(r@ =~= Self::reads_of());
        r
    }

    fn inputs() -> (i: CompositeInputs) {
        assert(Self::reads_of()[0] == Hdr::key_of());
        CompositeInputs {
            target: Target::key(),
            hdr: Hdr::key(),
            hdr_fwd: Hdr::key(),
            bloom: Hdr::key(),
            bloom_on: false,
            mode: 0,
        }
    }
}

/// Hybrid and bloom: both HDR layers and the bloom chain are live.
pub struct CompositeHybridBloom;

impl CompositeMode for CompositeHybridBloom {
    open spec fn reads_of() -> Seq<u32> {
        seq![Hdr::key_of(), HdrFwd::key_of(), Bloom0::key_of()]
    }

    open spec fn inputs_of() -> CompositeInputs {
        CompositeInputs {
            target: Target::key_of(),
            hdr: Hdr::key_of(),
            hdr_fwd: HdrFwd::key_of(),
            bloom: Bloom0::key_of(),
            bloom_on: true,
            mode: 2,
        }
    }

    fn reads() -> (r: Vec<u32>) {
        let r: Vec<u32> = vec![Hdr::key(), HdrFwd::key(), Bloom0::key()];
        assert(r@ =~= Self::reads_of());
        r
    }

    fn inputs() -> (i: CompositeInputs) {
        assert(Self::reads_of()[0] == Hdr::key_of());
        assert(Self::reads_of()[1] == HdrFwd::key_of());
        assert(Self::reads_of()[2] == Bloom0::key_of());
        CompositeInputs {
            target: Target::key(),
            hdr: Hdr::key(),
            hdr_fwd: HdrFwd::key(),
            bloom: Bloom0::key(),
            bloom_on: true,
            mode: 2,
        }
    }
}

/// Hybrid, bloom culled.
pub struct CompositeHybrid;

impl CompositeMode for CompositeHybrid {
    open spec fn reads_of() -> Seq<u32> {
        seq![Hdr::key_of(), HdrFwd::key_of()]
    }

    open spec fn inputs_of() -> CompositeInputs {
        CompositeInputs {
            target: Target::key_of(),
            hdr: Hdr::key_of(),
            hdr_fwd: HdrFwd::key_of(),
            bloom: HdrFwd::key_of(),
            bloom_on: false,
            mode: 2,
        }
    }

    fn reads() -> (r: Vec<u32>) {
        let r: Vec<u32> = vec![Hdr::key(), HdrFwd::key()];
        assert(r@ =~= Self::reads_of());
        r
    }

    fn inputs() -> (i: CompositeInputs) {
        assert(Self::reads_of()[0] == Hdr::key_of());
        assert(Self::reads_of()[1] == HdrFwd::key_of());
        CompositeInputs {
            target: Target::key(),
            hdr: Hdr::key(),
            hdr_fwd: HdrFwd::key(),
            bloom: HdrFwd::key(),
            bloom_on: false,
            mode: 2,
        }
    }
}

/// Forward-only and bloom.
pub struct CompositeForwardBloom;

impl CompositeMode for CompositeForwardBloom {
    open spec fn reads_of() -> Seq<u32> {
        seq![HdrFwd::key_of(), Bloom0::key_of()]
    }

    open spec fn inputs_of() -> CompositeInputs {
        CompositeInputs {
            target: Target::key_of(),
            hdr: HdrFwd::key_of(),
            hdr_fwd: HdrFwd::key_of(),
            bloom: Bloom0::key_of(),
            bloom_on: true,
            mode: 1,
        }
    }

    fn reads() -> (r: Vec<u32>) {
        let r: Vec<u32> = vec![HdrFwd::key(), Bloom0::key()];
        assert(r@ =~= Self::reads_of());
        r
    }

    fn inputs() -> (i: CompositeInputs) {
        assert(Self::reads_of()[0] == HdrFwd::key_of());
        assert(Self::reads_of()[1] == Bloom0::key_of());
        CompositeInputs {
            target: Target::key(),
            hdr: HdrFwd::key(),
            hdr_fwd: HdrFwd::key(),
            bloom: Bloom0::key(),
            bloom_on: true,
            mode: 1,
        }
    }
}

/// Forward-only, bloom culled.
pub struct CompositeForward;

impl CompositeMode for CompositeForward {
    open spec fn reads_of() -> Seq<u32> {
        seq![HdrFwd::key_of()]
    }

    open spec fn inputs_of() -> CompositeInputs {
        CompositeInputs {
            target: Target::key_of(),
            hdr: HdrFwd::key_of(),
            hdr_fwd: HdrFwd::key_of(),
            bloom: HdrFwd::key_of(),
            bloom_on: false,
            mode: 1,
        }
    }

    fn reads() -> (r: Vec<u32>) {
        let r: Vec<u32> = vec![HdrFwd::key()];
        assert(r@ =~= Self::reads_of());
        r
    }

    fn inputs() -> (i: CompositeInputs) {
        assert(Self::reads_of()[0] == HdrFwd::key_of());
        CompositeInputs {
            target: Target::key(),
            hdr: HdrFwd::key(),
            hdr_fwd: HdrFwd::key(),
            bloom: HdrFwd::key(),
            bloom_on: false,
            mode: 1,
        }
    }
}

/// The composite pass; `M` is the mode of technique and bloom.
pub struct Composite<M: CompositeMode> {
    mode: PhantomData<M>,
}

impl<M: CompositeMode> Composite<M> {
    /// The pass in its mode.
    pub fn new() -> (p: Composite<M>)
        ensures
            p.access_of() == (AccessView {
                reads: M::reads_of(),
                writes: seq![(Target::key_of(), None)],
            }),
            p.body_of() == (PassBody::Composite {
                shader_mode: M::inputs_of().mode,
                bloom: M::inputs_of().bloom_on,
            }),
    {
        Composite { mode: PhantomData }
    }
}

impl<M: CompositeMode> FramePass for Composite<M> {
    open spec fn name_text(&self) -> Seq<char> {
        "composite"@
    }

    open spec fn access_of(&self) -> AccessView {
        AccessView { reads: M::reads_of(), writes: seq![(Target::key_of(), None)] }
    }

    open spec fn body_of(&self) -> PassBody {
        PassBody::Composite {
            shader_mode: M::inputs_of().mode,
            bloom: M::inputs_of().bloom_on,
        }
    }

    fn name(&self) -> (s: &'static str) {
        "composite"
    }

    fn access(&self) -> (a: SystemAccess) {
        let a = SystemAccess { reads: M::reads(), writes: vec![(Target::key(), None)] };
        assert(a@ =~= self.access_of());
        a
    }

    fn body(&self) -> (b: PassBody) {
        let i = M::inputs();
        PassBody::Composite { shader_mode: i.mode, bloom: i.bloom_on }
    }
}

} // verus!
