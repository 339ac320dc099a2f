//! Laws of the data flow between the passes of the frame: what one pass writes, the next reads under
//! the same meaning, and how every pass mixes what it draws.
use vstd::prelude::*;
#[allow(unused_imports)]
use vstd::string::*;

use crate::binding_laws;
use crate::bindings;
use crate::bindings::Bound;
use crate::declarations::{PassDecl, ResourceId, TextureFormat};
use crate::frame_wiring;
use crate::frame_wiring::Technique;
use crate::renderer;
use crate::renderer::{Blend, Draw, Load, Topology};
use crate::shaders;
use crate::shaders::composite_generated;
use crate::shaders::hdr_composite_generated;
use crate::shaders::interface;
use crate::shaders::lighting_generated;
use crate::system::PassBody;

verus! {

/// Pass `i` of the frame.
pub open spec fn pass_at(t: Technique, bloom: bool, i: int) -> PassDecl {
    frame_wiring::frame_passes(t, bloom)[i]
}

/// What pass `i` of the frame does.
pub open spec fn body_at(t: Technique, bloom: bool, i: int) -> PassBody {
    frame_wiring::frame_bodies(t, bloom)[i]->0
}

/// Shader inputs of pass `i`.
pub open spec fn inputs_at(t: Technique, bloom: bool, i: int) -> Seq<Bound> {
    bindings::bound_of(body_at(t, bloom, i), pass_at(t, bloom, i).reads)
}

/// The color attachment `k` of pass `i`, as a shader input.
pub open spec fn output_at(t: Technique, bloom: bool, i: int, k: int) -> Bound {
    Bound::View(bindings::colors_of(body_at(t, bloom, i), pass_at(t, bloom, i).writes)[k])
}

/// The depth attachment of pass `i`, as a shader input.
pub open spec fn depth_at(t: Technique, bloom: bool, i: int) -> Bound {
    let pass = pass_at(t, bloom, i);
    Bound::View(bindings::depth_of(body_at(t, bloom, i), pass.reads, pass.writes)->0)
}

/// The first passes of a frame.
proof fn lemma_layers(t: Technique, bloom: bool)
    ensures
        t.deferred() ==> {
            &&& pass_at(t, bloom, 0) == frame_wiring::keyed_pass(
                "gbuffer"@,
                frame_wiring::gbuffer_access(),
            )
            &&& pass_at(t, bloom, 1) == frame_wiring::keyed_pass(
                "lighting"@,
                frame_wiring::lighting_access(),
            )
            &&& body_at(t, bloom, 0) is Gbuffer
            &&& body_at(t, bloom, 1) is Lighting
        },
        t.forward() ==> {
            let i = forward_index(t);
            &&& pass_at(t, bloom, i) == frame_wiring::keyed_pass(
                "forward"@,
                frame_wiring::forward_access(t),
            )
            &&& body_at(t, bloom, i) == (PassBody::Forward {
                owns_depth: t == Technique::Forward,
            })
        },
{
    let passes = frame_wiring::frame_passes(t, bloom);
    let bodies = frame_wiring::frame_bodies(t, bloom);
    let layers = frame_wiring::layer_passes(t);
    assert(frame_wiring::layer_bodies(t).len() == layers.len());
    assert forall|i: int| 0 <= i < layers.len() implies #[trigger] passes[i] == layers[i]
        && bodies[i] == frame_wiring::layer_bodies(t)[i] by {}
    if t.deferred() {
        assert(passes[0] == layers[0] && passes[1] == layers[1]);
    }
    if t.forward() {
        assert(passes[forward_index(t)] == layers[forward_index(t)]);
    }
}

/// Position of the forward pass in a frame that has it.
pub open spec fn forward_index(t: Technique) -> int {
    if t.deferred() {
        2
    } else {
        0
    }
}

/// The lighting pass reads the g-buffer back as it was written: the target that the g-buffer shader
/// fills from its output `x` is what the lighting shader samples as `x_tex`, and the depth buffer
/// that the geometry was tested against is its `depth_tex`.
pub proof fn the_gbuffer_is_read_back_as_written(t: Technique, bloom: bool, i: int)
    requires
        t.deferred(),
        0 <= i < interface::GBUFFER_OUTPUT@.len(),
    ensures
        body_at(t, bloom, 0) is Gbuffer,
        body_at(t, bloom, 1) is Lighting,
        exists|row: int|
            {
                &&& 0 <= row < lighting_generated::lighting_rows().len()
                &&& (#[trigger] lighting_generated::lighting_rows()[row]).name@
                    == interface::GBUFFER_OUTPUT@[i].1@ + "_tex"@
                &&& inputs_at(t, bloom, 1)[row] == output_at(t, bloom, 0, i)
            },
        exists|row: int|
            {
                &&& 0 <= row < lighting_generated::lighting_rows().len()
                &&& (#[trigger] lighting_generated::lighting_rows()[row]).name@ == "depth_tex"@
                &&& inputs_at(t, bloom, 1)[row] == depth_at(t, bloom, 0)
            },
{
    lemma_layers(t, bloom);
    reveal_strlit("_tex");
    reveal_strlit("albedo");
    reveal_strlit("normal");
    reveal_strlit("material_id");
    reveal_strlit("world_pos");
    reveal_strlit("mat_params");
    reveal_strlit("albedo_tex");
    reveal_strlit("normal_tex");
    reveal_strlit("material_id_tex");
    reveal_strlit("world_pos_tex");
    reveal_strlit("mat_params_tex");
    let rows = lighting_generated::lighting_rows();
    let g = pass_at(t, bloom, 0);
    let l = pass_at(t, bloom, 1);
    assert(g.writes.len() == 6 && l.reads.len() == 6);
    assert(forall|k: int| 0 <= k < 6 ==> g.writes[k].0 == #[trigger] l.reads[k]);
    let names = interface::GBUFFER_OUTPUT@;
    assert(rows[3].name@ =~= names[0].1@ + "_tex"@);
    assert(rows[4].name@ =~= names[1].1@ + "_tex"@);
    assert(rows[5].name@ =~= names[2].1@ + "_tex"@);
    assert(rows[6].name@ =~= names[3].1@ + "_tex"@);
    assert(rows[7].name@ =~= names[4].1@ + "_tex"@);
    assert(i == 0 || i == 1 || i == 2 || i == 3 || i == 4);
    assert(rows[i + 3].name@ == names[i].1@ + "_tex"@);
    assert(inputs_at(t, bloom, 1)[i + 3] == Bound::View(l.reads[i]));
    assert(rows[8].name@ == "depth_tex"@);
    assert(inputs_at(t, bloom, 1)[8] == Bound::View(l.reads[5]));
}

/// The composite pass mixes the layers that the frame made: what it samples as `deferred_tex` is what
/// the lighting pass drew, `forward_tex` what the forward pass drew and `bloom_tex` what the last
/// pass of the bloom chain left, as far as the frame has these passes. It is the last pass.
pub proof fn the_composite_mixes_the_layers_of_the_frame(t: Technique, bloom: bool)
    ensures
        ({
            let last = frame_wiring::frame_passes(t, bloom).len() - 1;
            let rows = hdr_composite_generated::hdr_rows();
            &&& body_at(t, bloom, last) is Composite
            &&& t.deferred() ==> rows[0].name@ == "deferred_tex"@ && inputs_at(t, bloom, last)[0]
                == output_at(t, bloom, 1, 0)
            &&& t.forward() ==> rows[1].name@ == "forward_tex"@ && inputs_at(t, bloom, last)[1]
                == output_at(t, bloom, forward_index(t), 0)
            &&& bloom ==> {
                &&& rows[3].name@ == "bloom_tex"@
                &&& body_at(t, bloom, last - 1) is BloomUp
                &&& inputs_at(t, bloom, last)[3] == output_at(t, bloom, last - 1, 0)
            }
        }),
{
    lemma_layers(t, bloom);
    let passes = frame_wiring::frame_passes(t, bloom);
    let bodies = frame_wiring::frame_bodies(t, bloom);
    let last = passes.len() - 1;
    assert(frame_wiring::layer_bodies(t).len() == frame_wiring::layer_passes(t).len());
    assert(bodies.len() == passes.len());
    let composite = passes[last];
    assert(composite == frame_wiring::keyed_pass(
        "composite"@,
        frame_wiring::composite_access(t, bloom),
    ));
    assert(composite.reads.len() == frame_wiring::composite_reads(t, bloom).len());
    if bloom {
        assert(passes[last - 1] == frame_wiring::bloom_passes(t)[4]);
        assert(bodies[last - 1] == frame_wiring::bloom_bodies(t)[4]);
    }
}

/// Geometry drawn by the forward pass is hidden by what the g-buffer pass drew: it is tested against
/// the same depth buffer, whose contents it keeps. Without a g-buffer the forward pass starts from
/// the farthest depth.
pub proof fn forward_geometry_is_tested_against_the_gbuffer(t: Technique, bloom: bool)
    requires
        t.forward(),
    ensures
        ({
            let i = forward_index(t);
            let load = renderer::recorded(body_at(t, bloom, i)).depth;
            &&& body_at(t, bloom, i) is Forward
            &&& t.deferred() ==> depth_at(t, bloom, i) == depth_at(t, bloom, 0) && load == Some(
                Load::Keep,
            )
            &&& !t.deferred() ==> load == Some(Load::Clear(crate::declarations::white()))
        }),
{
    lemma_layers(t, bloom);
}

/// How passes mix what they draw: what is kept is added to and everything else is started anew;
/// only the forward layer, which is cleared to nothing, is covered by alpha; integers are not
/// blended.
pub proof fn kept_targets_are_added_to(body: PassBody, format: TextureFormat, samples: u32, k: int)
    requires
        0 <= k < renderer::targets_of(body, format).len(),
        format != TextureFormat::R32Uint,
    ensures
        renderer::pipeline_of(body, format, samples).targets == renderer::targets_of(body, format),
        renderer::recorded(body).colors.len() == renderer::targets_of(body, format).len(),
        ({
            let target = renderer::targets_of(body, format)[k];
            let load = renderer::recorded(body).colors[k];
            &&& load is Keep <==> target.blend == Blend::Add
            &&& load is Keep <==> body is BloomUp
            &&& target.blend == Blend::Alpha <==> body is Forward
            &&& target.format == TextureFormat::R32Uint ==> target.blend == Blend::Off
        }),
{
    match body {
        PassBody::Gbuffer => {
            assert(k == 0 || k == 1 || k == 2 || k == 3 || k == 4);
        },
        _ => {
            assert(k == 0);
        },
    }
}

/// A pass draws with a pipeline of its kind: meshes are lists of triangles seen from their front and
/// tested for depth, quads are strips seen from both sides and not tested. Where the pipeline tests
/// depth, the pass has a depth buffer.
pub proof fn passes_draw_what_their_pipelines_take(
    body: PassBody,
    format: TextureFormat,
    samples: u32,
)
    ensures
        ({
            let geometry = renderer::pipeline_of(body, format, samples).geometry;
            let recorded = renderer::recorded(body);
            &&& geometry.mesh <==> recorded.draw == Draw::Mesh
            &&& geometry.mesh <==> body is Gbuffer || body is Forward
            &&& geometry.topology == Topology::TriangleList <==> geometry.mesh
            &&& geometry.cull_back <==> geometry.mesh
            &&& geometry.depth is Some <==> geometry.mesh
            &&& geometry.depth is Some <==> recorded.depth is Some
            &&& geometry.samples == if geometry.mesh || body is Lighting {
                samples
            } else {
                1
            }
        }),
{
}

/// The pipeline of a pass lays out exactly what the pass is bound to: an entry per input, under its
/// number, of the kind that the shader declares. Only lighting reads samples, where there are
/// several.
pub proof fn pipelines_lay_out_what_passes_bind(
    body: PassBody,
    format: TextureFormat,
    samples: u32,
    reads: Seq<ResourceId>,
    i: int,
)
    requires
        0 <= i < bindings::bound_of(body, reads).len(),
    ensures
        ({
            let entries = renderer::pipeline_of(body, format, samples).entries;
            let multisampled = body is Lighting && samples > 1;
            let row = binding_laws::table_of(body)[i];
            &&& entries.len() == bindings::bound_of(body, reads).len()
            &&& entries[i].binding == i
            &&& entries[i].visibility == row.visibility
            &&& binding_laws::fits(bindings::bound_of(body, reads)[i], row.kind)
            &&& entries[i].ty == shaders::sized_type(row, multisampled)
        }),
{
    binding_laws::bindings_fit_the_tables(body, reads, i);
    let table = binding_laws::table_of(body);
    let multisampled = body is Lighting && samples > 1;
    assert(renderer::pipeline_of(body, format, samples).entries == shaders::table_entries(
        table,
        multisampled,
    ));
}

/// Shading straight into a surface differs from shading into the forward layer only in the target: the
/// surface's format, which the color replaces.
pub proof fn the_surface_pipeline_shades_like_the_forward_one(format: TextureFormat, samples: u32)
    ensures
        ({
            let direct = renderer::pbr_pipeline_of(format, samples);
            let forward = renderer::forward_pipeline_of(samples);
            &&& direct.vertex == forward.vertex
            &&& direct.vertex_entry == forward.vertex_entry
            &&& direct.fragment == forward.fragment
            &&& direct.fragment_entry == forward.fragment_entry
            &&& direct.entries == forward.entries
            &&& direct.geometry == forward.geometry
            &&& direct.targets.len() == 1
            &&& direct.targets[0].format == format
            &&& direct.targets[0].blend == Blend::Replace
        }),
{
}

/// The user interface is drawn as one quad of one sample, without a depth buffer, and its pipeline
/// lays out the two textures with their samplers.
pub proof fn the_interface_is_drawn_as_a_quad(format: TextureFormat, i: int)
    requires
        0 <= i < composite_generated::composite_rows().len(),
    ensures
        ({
            let p = renderer::ui_pipeline_of(format);
            &&& !p.geometry.mesh && p.geometry.topology == Topology::TriangleStrip
            &&& p.geometry.depth is None && p.geometry.samples == 1 && !p.geometry.cull_back
            &&& p.targets.len() == 1
            &&& p.targets[0].format == format
            &&& p.targets[0].blend == Blend::Replace
            &&& p.vertex == p.fragment
            &&& p.entries.len() == composite_generated::composite_rows().len()
            &&& p.entries[i].binding == i
            &&& p.entries[i].ty is Texture <==> i % 2 == 0
            &&& p.entries[i].ty is Sampler <==> i % 2 == 1
        }),
{
    assert(i == 0 || i == 1 || i == 2 || i == 3);
}

} // verus!
