//! Laws: recorded passes are bound to what they declare, in the shape that their shaders read.
use vstd::prelude::*;

use crate::bindings;
use crate::bindings::Bound;
use crate::declarations::{Color, PassDecl, ResourceId, SizePolicy, TextureFormat};
use crate::frame_passes::{
    CompositeDeferred, CompositeDeferredBloom, CompositeForward, CompositeForwardBloom,
    CompositeHybrid, CompositeHybridBloom, CompositeInputs, CompositeMode, Hdr, HdrFwd,
};
use crate::frame_wiring;
use crate::frame_wiring::Technique;
use crate::renderer;
use crate::scene::ONE;
use crate::shaders::bloom_generated;
use crate::shaders::buffer_layouts;
use crate::shaders::gbuffer_generated;
use crate::shaders::hdr_composite_generated;
use crate::shaders::lighting_generated;
use crate::shaders::openpbr;
use crate::shaders::pbr_generated;
use crate::shaders::{Resource, ResourceKind};
use crate::system::{FrameResource, PassBody};

verus! {

/// Resource table of the shaders of a pass.
pub open spec fn table_of(body: PassBody) -> Seq<Resource> {
    match body {
        PassBody::Gbuffer => gbuffer_generated::gbuffer_rows(),
        PassBody::Lighting => lighting_generated::lighting_rows(),
        PassBody::Forward { .. } => pbr_generated::pbr_rows(),
        PassBody::Composite { .. } => hdr_composite_generated::hdr_rows(),
        _ => bloom_generated::bloom_rows(),
    }
}

/// What is bound has the kind, and for buffers the type, that the shader declares.
pub open spec fn fits(bound: Bound, kind: ResourceKind) -> bool {
    match bound {
        Bound::Camera => kind == ResourceKind::Uniform(buffer_layouts::CAMERA_NAME),
        Bound::Instances => kind == ResourceKind::StorageReadArray(buffer_layouts::PER_OBJECT_NAME),
        Bound::Materials => kind == ResourceKind::StorageReadArray(openpbr::OPENPBR_WGSL_NAME),
        Bound::Lighting => kind == ResourceKind::Uniform(buffer_layouts::LIGHTING_NAME),
        Bound::BloomParams => kind == ResourceKind::Uniform(buffer_layouts::BLOOM_NAME),
        Bound::Sampler => kind is Sampler,
        Bound::View(_) => kind.is_texture(),
    }
}

/// Every row of the pass's table is bound, under its number, to something of its kind.
pub proof fn bindings_fit_the_tables(body: PassBody, reads: Seq<ResourceId>, i: int)
    requires
        0 <= i < table_of(body).len(),
    ensures
        bindings::bound_of(body, reads).len() == table_of(body).len(),
        table_of(body)[i].binding == i,
        fits(bindings::bound_of(body, reads)[i], table_of(body)[i].kind),
{
}

/// A pass samples only what it declares to read, draws only into what it declares to write, and
/// tests depth only against what it declares either way.
pub proof fn passes_bind_only_what_they_declare(
    body: PassBody,
    reads: Seq<ResourceId>,
    writes: Seq<(ResourceId, Option<Color>)>,
    i: int,
)
    requires
        bindings::declares(body, reads.len(), writes.len()),
    ensures
        0 <= i < bindings::bound_of(body, reads).len() ==> (bindings::bound_of(body, reads)[i]
            matches Bound::View(id) ==> reads.contains(id)),
        0 <= i < bindings::colors_of(body, writes).len() ==> exists|k: int|
            0 <= k < writes.len() && (#[trigger] writes[k]).0 == bindings::colors_of(
                body,
                writes,
            )[i],
        bindings::depth_of(body, reads, writes) matches Some(id) ==> reads.contains(id) || exists|
            k: int,
        |
            0 <= k < writes.len() && (#[trigger] writes[k]).0 == id,
{
    if bindings::declares(body, reads.len(), writes.len()) {
        let bound = bindings::bound_of(body, reads);
        if 0 <= i < bound.len() {
            match body {
                PassBody::Lighting => {
                    if 3 <= i < 9 {
                        assert(bound[i] == Bound::View(reads[i - 3]));
                    }
                },
                PassBody::Composite { shader_mode, bloom } => {
                    let layers = bindings::composite_layers(shader_mode, bloom);
                    assert(reads.contains(reads[layers.0]));
                    assert(reads.contains(reads[layers.1]));
                    assert(reads.contains(reads[layers.2]));
                },
                _ => {
                    assert(reads.len() > 0 ==> reads.contains(reads[0]));
                },
            }
        }
        let colors = bindings::colors_of(body, writes);
        if 0 <= i < colors.len() {
            if body is Gbuffer {
                assert(writes[i].0 == colors[i]);
            }
        }
    }
}

/// The texture can be sampled as the shader declares it.
pub open spec fn samples_as(format: TextureFormat, kind: ResourceKind) -> bool {
    match kind {
        ResourceKind::TextureUint => format == TextureFormat::R32Uint,
        ResourceKind::TextureDepth => format == TextureFormat::Depth32Float,
        _ => format != TextureFormat::R32Uint && format != TextureFormat::Depth32Float,
    }
}

/// What a pass of the frame is bound to: it declares enough, attaches everything that it writes,
/// uses everything that it reads, starts as many attachments as it is recorded with, and samples
/// every texture as its format allows.
pub open spec fn well_bound(pass: PassDecl, body: PassBody, format: TextureFormat) -> bool {
    let bound = bindings::bound_of(body, pass.reads);
    let colors = bindings::colors_of(body, pass.writes);
    let depth = bindings::depth_of(body, pass.reads, pass.writes);
    &&& bindings::declares(body, pass.reads.len(), pass.writes.len())
    &&& renderer::recorded(body).colors.len() == colors.len()
    &&& renderer::recorded(body).depth is Some == depth is Some
    &&& forall|k: int|
        0 <= k < pass.reads.len() ==> bound.contains(Bound::View(#[trigger] pass.reads[k])) || depth
            == Some(pass.reads[k])
    &&& forall|k: int|
        0 <= k < pass.writes.len() ==> colors.contains((#[trigger] pass.writes[k]).0) || depth
            == Some(pass.writes[k].0)
    &&& forall|i: int|
        0 <= i < bound.len() ==> (#[trigger] bound[i] matches Bound::View(id) ==> samples_as(
            frame_wiring::frame_resources(format)[id.0 as int].spec.format,
            table_of(body)[i].kind,
        ))
}

proof fn lemma_gbuffer(format: TextureFormat)
    ensures
        well_bound(
            frame_wiring::keyed_pass("gbuffer"@, frame_wiring::gbuffer_access()),
            PassBody::Gbuffer,
            format,
        ),
{
    let pass = frame_wiring::keyed_pass("gbuffer"@, frame_wiring::gbuffer_access());
    let colors = bindings::colors_of(PassBody::Gbuffer, pass.writes);
    assert forall|k: int| 0 <= k < pass.writes.len() implies colors.contains(
        (#[trigger] pass.writes[k]).0,
    ) || bindings::depth_of(PassBody::Gbuffer, pass.reads, pass.writes) == Some(
        pass.writes[k].0,
    ) by {
        if k < 5 {
            assert(colors[k] == pass.writes[k].0);
        }
    }
}

proof fn lemma_lighting(format: TextureFormat)
    ensures
        well_bound(
            frame_wiring::keyed_pass("lighting"@, frame_wiring::lighting_access()),
            PassBody::Lighting,
            format,
        ),
{
    let pass = frame_wiring::keyed_pass("lighting"@, frame_wiring::lighting_access());
    let bound = bindings::bound_of(PassBody::Lighting, pass.reads);
    let colors = bindings::colors_of(PassBody::Lighting, pass.writes);
    assert forall|k: int| 0 <= k < pass.reads.len() implies bound.contains(
        Bound::View(#[trigger] pass.reads[k]),
    ) by {
        assert(bound[k + 3] == Bound::View(pass.reads[k]));
    }
    assert(colors[0] == pass.writes[0].0);
}

proof fn lemma_forward(t: Technique, format: TextureFormat)
    requires
        t.forward(),
    ensures
        well_bound(
            frame_wiring::keyed_pass("forward"@, frame_wiring::forward_access(t)),
            PassBody::Forward { owns_depth: t == Technique::Forward },
            format,
        ),
{
    let pass = frame_wiring::keyed_pass("forward"@, frame_wiring::forward_access(t));
    let body = PassBody::Forward { owns_depth: t == Technique::Forward };
    let colors = bindings::colors_of(body, pass.writes);
    assert(colors[0] == pass.writes[pass.writes.len() - 1].0);
}

proof fn lemma_bloom(pass: PassDecl, body: PassBody, format: TextureFormat)
    requires
        body is BloomBright || body is BloomDown || body is BloomUp,
        pass.reads.len() == 1,
        pass.writes.len() == 1,
        samples_as(
            frame_wiring::frame_resources(format)[pass.reads[0].0 as int].spec.format,
            ResourceKind::TextureFloat,
        ),
    ensures
        well_bound(pass, body, format),
{
    let bound = bindings::bound_of(body, pass.reads);
    let colors = bindings::colors_of(body, pass.writes);
    assert(bound[0] == Bound::View(pass.reads[0]));
    assert(colors[0] == pass.writes[0].0);
}

proof fn lemma_composite(t: Technique, bloom: bool, format: TextureFormat)
    requires
        samples_as(format, ResourceKind::TextureFloat),
    ensures
        well_bound(
            frame_wiring::keyed_pass("composite"@, frame_wiring::composite_access(t, bloom)),
            PassBody::Composite { shader_mode: t.mode(), bloom },
            format,
        ),
{
    let pass = frame_wiring::keyed_pass("composite"@, frame_wiring::composite_access(t, bloom));
    let body = PassBody::Composite { shader_mode: t.mode(), bloom };
    let bound = bindings::bound_of(body, pass.reads);
    let colors = bindings::colors_of(body, pass.writes);
    let layers = bindings::composite_layers(t.mode(), bloom);
    assert(pass.reads.len() == layers.2 + 1);
    assert(bound[0] == Bound::View(pass.reads[layers.0]));
    assert(bound[1] == Bound::View(pass.reads[layers.1]));
    assert(bound[3] == Bound::View(pass.reads[layers.2]));
    assert(colors[0] == pass.writes[0].0);
}

/// Every pass of the frame, whatever the technique, is bound to exactly what it declares: every
/// declared read is sampled or tested against, every declared write is an attachment, and every
/// sampled texture has a format that its shader can read. The surface holds colors.
pub proof fn frame_passes_are_well_bound(t: Technique, bloom: bool, format: TextureFormat, i: int)
    requires
        0 <= i < frame_wiring::frame_passes(t, bloom).len(),
        samples_as(format, ResourceKind::TextureFloat),
    ensures
        frame_wiring::frame_bodies(t, bloom)[i] is Some,
        well_bound(
            frame_wiring::frame_passes(t, bloom)[i],
            frame_wiring::frame_bodies(t, bloom)[i]->0,
            format,
        ),
{
    let passes = frame_wiring::frame_passes(t, bloom);
    let bodies = frame_wiring::frame_bodies(t, bloom);
    let layers = frame_wiring::layer_passes(t).len();
    assert(frame_wiring::layer_bodies(t).len() == layers);
    if i < layers {
        assert(passes[i] == frame_wiring::layer_passes(t)[i]);
        assert(bodies[i] == frame_wiring::layer_bodies(t)[i]);
        if t.deferred() && i == 0 {
            lemma_gbuffer(format);
        } else if t.deferred() && i == 1 {
            lemma_lighting(format);
        } else {
            lemma_forward(t, format);
        }
    } else if i < passes.len() - 1 {
        let j = i - layers;
        assert(passes[i] == frame_wiring::bloom_passes(t)[j]);
        assert(bodies[i] == frame_wiring::bloom_bodies(t)[j]);
        assert(j == 0 || j == 1 || j == 2 || j == 3 || j == 4);
        lemma_bloom(passes[i], bodies[i]->0, format);
    } else {
        lemma_composite(t, bloom, format);
    }
}

/// The composite pass is bound as its mode says: to the mode's layers, target and parameters.
pub open spec fn bound_as(inputs: CompositeInputs, reads: Seq<u32>) -> bool {
    let ids = reads.map_values(|k: u32| ResourceId(k));
    let body = PassBody::Composite { shader_mode: inputs.mode, bloom: inputs.bloom_on };
    bindings::bound_of(body, ids) == seq![
        Bound::View(ResourceId(inputs.hdr)),
        Bound::View(ResourceId(inputs.hdr_fwd)),
        Bound::Sampler,
        Bound::View(ResourceId(inputs.bloom)),
        Bound::BloomParams,
    ]
}

/// In each of its modes the composite pass is bound to the layers of the mode.
pub proof fn composite_modes_bind_their_layers()
    ensures
        bound_as(CompositeDeferred::inputs_of(), CompositeDeferred::reads_of()),
        bound_as(CompositeDeferredBloom::inputs_of(), CompositeDeferredBloom::reads_of()),
        bound_as(CompositeForward::inputs_of(), CompositeForward::reads_of()),
        bound_as(CompositeForwardBloom::inputs_of(), CompositeForwardBloom::reads_of()),
        bound_as(CompositeHybrid::inputs_of(), CompositeHybrid::reads_of()),
        bound_as(CompositeHybridBloom::inputs_of(), CompositeHybridBloom::reads_of()),
{
}

/// On the renderer's own textures the composite pass of the hybrid frame mixes the lit image and the
/// forward layer, and has the lit image for its bloom layer, with no weight.
pub proof fn the_scene_binds_the_lit_image_for_bloom()
    ensures
        ({
            let pass = frame_wiring::frame_passes(Technique::Hybrid, false).last();
            let body = frame_wiring::frame_bodies(Technique::Hybrid, false).last()->0;
            &&& bindings::declares(body, pass.reads.len(), pass.writes.len())
            &&& bindings::scene_bound_of(body, pass.reads) == seq![
                Bound::View(ResourceId(Hdr::key_of())),
                Bound::View(ResourceId(HdrFwd::key_of())),
                Bound::Sampler,
                Bound::View(ResourceId(Hdr::key_of())),
                Bound::BloomParams,
            ]
            &&& bindings::params_of(body) == Some(
                bindings::BloomUniform { threshold: 0, intensity: 0, mode: 2 },
            )
        }),
{
    let pass = frame_wiring::frame_passes(Technique::Hybrid, false).last();
    let access = frame_wiring::composite_access(Technique::Hybrid, false);
    assert(pass == frame_wiring::keyed_pass("composite"@, access));
    assert(pass.reads.len() == 2);
    assert(pass.reads[0] == ResourceId(Hdr::key_of()));
    assert(pass.reads[1] == ResourceId(HdrFwd::key_of()));
}

/// Of the passes of a frame only the first level of the bloom chain gates: the bright pass writes
/// its threshold, and every other pass that writes parameters writes a threshold of zero. Only the
/// composite pass of a frame with bloom weights the bloom layer, and fully.
pub proof fn only_the_bright_pass_gates(t: Technique, bloom: bool, i: int)
    requires
        0 <= i < frame_wiring::frame_bodies(t, bloom).len(),
    ensures
        ({
            let body = frame_wiring::frame_bodies(t, bloom)[i]->0;
            let params = bindings::params_of(body);
            &&& params is Some <==> body is BloomBright || body is BloomDown || body is Composite
            &&& params is Some ==> {
                &&& params->0.threshold != 0 <==> body is BloomBright
                &&& body is BloomBright ==> params->0.threshold
                    == bindings::BLOOM_BRIGHT_THRESHOLD
                &&& params->0.intensity == if body is Composite && bloom {
                    ONE
                } else {
                    0
                }
                &&& params->0.mode == if !(body is Composite) {
                    0u32
                } else {
                    match t {
                        Technique::Deferred => 0,
                        Technique::Forward => 1,
                        Technique::Hybrid => 2,
                    }
                }
            }
        }),
{
    let bodies = frame_wiring::frame_bodies(t, bloom);
    let layers = frame_wiring::layer_bodies(t).len();
    if i < layers {
        assert(bodies[i] == frame_wiring::layer_bodies(t)[i]);
    } else if i < bodies.len() - 1 {
        assert(bodies[i] == frame_wiring::bloom_bodies(t)[i - layers]);
        let j = i - layers;
        assert(j == 0 || j == 1 || j == 2 || j == 3 || j == 4);
    }
}

/// How much smaller than the surface a resource of the frame is on each axis.
pub open spec fn divisor(format: TextureFormat, id: ResourceId) -> u32 {
    match frame_wiring::frame_resources(format)[id.0 as int].spec.size {
        SizePolicy::MatchSurface => 1,
        SizePolicy::Fraction(d) => d,
        SizePolicy::Fixed { .. } => 0,
    }
}

/// The bloom chain halves down and doubles up again: the bright pass reads a full-size layer that
/// an earlier pass made, every later pass of the chain reads what the pass before it wrote, and
/// the composite pass reads what the last one wrote.
pub proof fn the_bloom_chain_halves_and_doubles(
    t: Technique,
    format: TextureFormat,
    i: int,
)
    requires
        0 <= i < frame_wiring::frame_passes(t, true).len(),
    ensures
        ({
            let passes = frame_wiring::frame_passes(t, true);
            let body = frame_wiring::frame_bodies(t, true)[i]->0;
            let pass = passes[i];
            &&& body is BloomBright ==> {
                &&& divisor(format, pass.reads[0]) == 1
                &&& divisor(format, pass.writes[0].0) == 2
                &&& exists|w: int|
                    0 <= w < i && (#[trigger] passes[w]).writes.last().0 == pass.reads[0]
            }
            &&& body is BloomDown ==> {
                &&& pass.reads[0] == passes[i - 1].writes[0].0
                &&& divisor(format, pass.writes[0].0) == 2 * divisor(format, pass.reads[0])
            }
            &&& body is BloomUp ==> {
                &&& pass.reads[0] == passes[i - 1].writes[0].0
                &&& divisor(format, pass.reads[0]) == 2 * divisor(format, pass.writes[0].0)
            }
            &&& body is Composite ==> {
                &&& i == passes.len() - 1
                &&& pass.reads.last() == passes[i - 1].writes[0].0
                &&& divisor(format, pass.reads.last()) == 2
            }
        }),
{
    let passes = frame_wiring::frame_passes(t, true);
    let bodies = frame_wiring::frame_bodies(t, true);
    let chain = frame_wiring::bloom_passes(t);
    let layers = frame_wiring::layer_passes(t).len() as int;
    assert(frame_wiring::layer_bodies(t).len() == layers);
    assert(chain.len() == 5);
    assert(passes.len() == layers + 6);
    assert forall|j: int| 0 <= j < 5 implies passes[layers + j] == #[trigger] chain[j]
        && bodies[layers + j] == frame_wiring::bloom_bodies(t)[j] by {}
    if i < layers {
        assert(bodies[i] == frame_wiring::layer_bodies(t)[i]);
    } else if i < layers + 5 {
        let j = i - layers;
        assert(j == 0 || j == 1 || j == 2 || j == 3 || j == 4);
        assert(passes[i] == chain[j]);
        if j > 0 {
            assert(passes[i - 1] == chain[j - 1]);
        } else {
            let w = if t.deferred() {
                1int
            } else {
                0
            };
            assert(passes[w] == frame_wiring::layer_passes(t)[w]);
            assert(passes[w].writes.last().0 == passes[i].reads[0]);
        }
    } else {
        assert(passes[i - 1] == chain[4]);
        assert(passes[i] == frame_wiring::keyed_pass(
            "composite"@,
            frame_wiring::composite_access(t, true),
        ));
    }
}

} // verus!
