//! Laws of the shader stages: which buffers, attributes and textures every statement reads, under the
//! names that the tables declare.
use vstd::prelude::*;
#[allow(unused_imports)]
use vstd::string::*;

use crate::frame_wiring::Technique;
use crate::shaders::bloom_generated;
use crate::shaders::buffer_layouts;
use crate::shaders::composite_generated;
use crate::shaders::declaration_laws;
use crate::shaders::declaration_laws::has;
use crate::shaders::gbuffer_generated;
use crate::shaders::hdr_composite_generated;
use crate::shaders::interface;
use crate::shaders::lighting_generated;
use crate::shaders::math;
use crate::shaders::pbr_generated;
use crate::shaders::shading;
use crate::shaders::shading_laws;
use crate::text;

verus! {

/// What stands in an entry point stands in the module around it.
proof fn lemma_module_has(front: Seq<char>, entry: Seq<char>, back: Seq<char>, needle: Seq<char>)
    requires
        has(entry, needle),
    ensures
        has(front + entry + back, needle),
{
    declaration_laws::lemma_has_right(front, entry, needle);
    declaration_laws::lemma_has_left(front + entry, back, needle);
}

proof fn lemma_holds_vertex_body()
    ensures
        has(gbuffer_generated::gbuffer_vertex_text(), gbuffer_generated::VERTEX_BODY@),
{
    let body = gbuffer_generated::VERTEX_BODY@;
    declaration_laws::lemma_has_self(body);
    shading_laws::lemma_entry_has(
        "@vertex"@,
        gbuffer_generated::VERTEX_ENTRY_POINT@,
        "input: VertexInput, @builtin(instance_index) instance: u32"@,
        interface::GBUFFER_VERTEX_OUTPUT_NAME@,
        body,
        body,
    );
    let entry = gbuffer_generated::vertex_entry_text();
    let all = gbuffer_generated::gbuffer_vertex_text();
    let front = all.subrange(0, all.len() - entry.len());
    assert(all =~= front + entry);
    declaration_laws::lemma_has_right(front, entry, body);
}

/// Statements that place a vertex.
pub open spec fn placing() -> Seq<Seq<char>> {
    seq![
        "let world_pos = obj."@ + buffer_layouts::PER_OBJECT@[0].0@ + " * vec4<f32>(input."@
            + interface::GBUFFER_VERTEX_INPUT@[0].1@ + ", 1.0); "@,
        "var world_normal = normalize((obj."@ + buffer_layouts::PER_OBJECT@[1].0@
            + " * vec4<f32>(input."@ + interface::GBUFFER_VERTEX_INPUT@[1].1@ + ", 0.0)).xyz); "@,
        "var world_tangent = normalize((obj."@ + buffer_layouts::PER_OBJECT@[1].0@
            + " * vec4<f32>(input."@ + interface::GBUFFER_VERTEX_INPUT@[3].1@ + ", 0.0)).xyz); "@,
        "output."@ + interface::GBUFFER_VERTEX_OUTPUT@[0].1@ + " = camera."@
            + buffer_layouts::CAMERA@[0].0@ + " * world_pos; "@,
        "output."@ + interface::GBUFFER_VERTEX_OUTPUT@[1].1@ + " = world_pos.xyz; "@,
        "output."@ + interface::GBUFFER_VERTEX_OUTPUT@[2].1@ + " = world_normal; "@,
        "output."@ + interface::GBUFFER_VERTEX_OUTPUT@[3].1@ + " = input."@
            + interface::GBUFFER_VERTEX_INPUT@[2].1@ + "; "@,
        "output."@ + interface::GBUFFER_VERTEX_OUTPUT@[4].1@ + " = world_tangent; "@,
        "output."@ + interface::GBUFFER_VERTEX_OUTPUT@[5].1@ + " = obj."@
            + buffer_layouts::PER_OBJECT@[2].0@ + "; "@,
    ]
}

#[verifier::spinoff_prover]
proof fn lemma_placing(k: int)
    requires
        0 <= k < placing().len(),
    ensures
        has(gbuffer_generated::VERTEX_BODY@, placing()[k]),
{
    reveal_strlit(
        "let obj = per_objects[instance]; \
    let world_pos = obj.model * vec4<f32>(input.position, 1.0); \
    var world_normal = normalize((obj.normal_matrix * vec4<f32>(input.normal, 0.0)).xyz); \
    var world_tangent = normalize((obj.normal_matrix * vec4<f32>(input.tangent, 0.0)).xyz); \
    var output: VertexOutput; \
    output.clip_position = camera.view_proj * world_pos; \
    output.world_position = world_pos.xyz; \
    output.world_normal = world_normal; \
    output.uv = input.uv; \
    output.world_tangent = world_tangent; \
    output.material_index = obj.material_index; \
    return output;",
    );
    let body = gbuffer_generated::VERTEX_BODY@;
    let s = placing()[k];
    if k == 0 {
        reveal_strlit("let world_pos = obj.");
        reveal_strlit("model");
        reveal_strlit(" * vec4<f32>(input.");
        reveal_strlit("position");
        reveal_strlit(", 1.0); ");
        assert(body.subrange(33, 93) =~= s);
        assert(text::occurs_at(body, s, 33));
    } else if k == 1 {
        reveal_strlit("var world_normal = normalize((obj.");
        reveal_strlit("normal_matrix");
        reveal_strlit(" * vec4<f32>(input.");
        reveal_strlit("normal");
        reveal_strlit(", 0.0)).xyz); ");
        assert(body.subrange(93, 179) =~= s);
        assert(text::occurs_at(body, s, 93));
    } else if k == 2 {
        reveal_strlit("var world_tangent = normalize((obj.");
        reveal_strlit("normal_matrix");
        reveal_strlit(" * vec4<f32>(input.");
        reveal_strlit("tangent");
        reveal_strlit(", 0.0)).xyz); ");
        assert(body.subrange(179, 267) =~= s);
        assert(text::occurs_at(body, s, 179));
    } else if k == 3 {
        reveal_strlit("output.");
        reveal_strlit("clip_position");
        reveal_strlit(" = camera.");
        reveal_strlit("view_proj");
        reveal_strlit(" * world_pos; ");
        assert(body.subrange(293, 346) =~= s);
        assert(text::occurs_at(body, s, 293));
    } else if k == 4 {
        reveal_strlit("output.");
        reveal_strlit("world_position");
        reveal_strlit(" = world_pos.xyz; ");
        assert(body.subrange(346, 385) =~= s);
        assert(text::occurs_at(body, s, 346));
    } else if k == 5 {
        reveal_strlit("output.");
        reveal_strlit("world_normal");
        reveal_strlit(" = world_normal; ");
        assert(body.subrange(385, 421) =~= s);
        assert(text::occurs_at(body, s, 385));
    } else if k == 6 {
        reveal_strlit("output.");
        reveal_strlit("uv");
        reveal_strlit(" = input.");
        reveal_strlit("; ");
        assert(body.subrange(421, 443) =~= s);
        assert(text::occurs_at(body, s, 421));
    } else if k == 7 {
        reveal_strlit("output.");
        reveal_strlit("world_tangent");
        reveal_strlit(" = world_tangent; ");
        assert(body.subrange(443, 481) =~= s);
        assert(text::occurs_at(body, s, 443));
    } else {
        reveal_strlit("output.");
        reveal_strlit("material_index");
        reveal_strlit(" = obj.");
        reveal_strlit("; ");
        assert(body.subrange(481, 525) =~= s);
        assert(text::occurs_at(body, s, 481));
    }
}

/// The vertex stage places every vertex by its instance's transform and the camera, turns normal and
/// tangent by the instance's normal matrix, and hands on its texture coordinates and material.
pub proof fn the_vertex_stage_places_instances(k: int)
    requires
        0 <= k < placing().len(),
    ensures
        has(gbuffer_generated::gbuffer_vertex_text(), placing()[k]),
{
    lemma_holds_vertex_body();
    lemma_placing(k);
    declaration_laws::lemma_has_within(
        gbuffer_generated::gbuffer_vertex_text(),
        gbuffer_generated::VERTEX_BODY@,
        placing()[k],
    );
}

/// The g-buffer module holds what its fragment body holds.
proof fn lemma_gbuffer_holds(needle: Seq<char>)
    requires
        has(gbuffer_generated::fragment_body_text(), needle),
    ensures
        has(gbuffer_generated::gbuffer_text(), needle),
{
    shading_laws::lemma_entry_has(
        "@fragment"@,
        gbuffer_generated::FRAGMENT_ENTRY_POINT@,
        "input: FragmentInput"@,
        interface::GBUFFER_OUTPUT_NAME@,
        gbuffer_generated::fragment_body_text(),
        needle,
    );
    let entry = gbuffer_generated::fragment_entry_text();
    let all = gbuffer_generated::gbuffer_text();
    let back = "\n"@ + math::OCTAHEDRAL_ENCODE@;
    let front = all.subrange(0, all.len() - entry.len() - back.len());
    assert(all =~= front + entry + back);
    lemma_module_has(front, entry, back, needle);
}

proof fn lemma_holds_packing()
    ensures
        has(gbuffer_generated::gbuffer_text(), gbuffer_generated::PACKING@),
{
    let body = gbuffer_generated::PACKING@;
    declaration_laws::lemma_has_self(body);
    let before = gbuffer_generated::SURFACE@ + shading::locals_text(
        gbuffer_generated::SURFACE_LOCALS@,
    ) + gbuffer_generated::ENCODING@ + shading::locals_text(gbuffer_generated::PARAM_LOCALS@);
    declaration_laws::lemma_has_right(before, body, body);
    lemma_gbuffer_holds(body);
}

/// Statements that fill the targets of the g-buffer.
pub open spec fn packing() -> Seq<Seq<char>> {
    seq![
        "let mat_params = vec4<f32>("@ + gbuffer_generated::PARAM_LOCALS@[0].0@ + ", "@
            + gbuffer_generated::PARAM_LOCALS@[1].0@ + ", "@
            + gbuffer_generated::PARAM_LOCALS@[3].0@ + ", "@
            + gbuffer_generated::PARAM_LOCALS@[4].0@ + "); "@,
        "output."@ + interface::GBUFFER_OUTPUT@[0].1@ + " = vec4<f32>("@
            + gbuffer_generated::SURFACE_LOCALS@[0].0@ + ", "@
            + gbuffer_generated::SURFACE_LOCALS@[1].0@ + "); "@,
        "output."@ + interface::GBUFFER_OUTPUT@[1].1@ + " = normal_enc; "@,
        "output."@ + interface::GBUFFER_OUTPUT@[2].1@ + " = material_id; "@,
        "output."@ + interface::GBUFFER_OUTPUT@[3].1@ + " = world_pos_enc; "@,
        "output."@ + interface::GBUFFER_OUTPUT@[4].1@ + " = mat_params; "@,
    ]
}

#[verifier::spinoff_prover]
proof fn lemma_packing(k: int)
    requires
        0 <= k < packing().len(),
    ensures
        has(gbuffer_generated::PACKING@, packing()[k]),
{
    reveal_strlit(
        "let mat_params = vec4<f32>(roughness, metalness, specular_ior, coat_weight); \
    var output: GBufferOutput; \
    output.albedo = vec4<f32>(base_color, opacity); \
    output.normal = normal_enc; \
    output.material_id = material_id; \
    output.world_pos = world_pos_enc; \
    output.mat_params = mat_params; \
    return output;",
    );
    let body = gbuffer_generated::PACKING@;
    let s = packing()[k];
    if k == 0 {
        reveal_strlit("let mat_params = vec4<f32>(");
        reveal_strlit("roughness");
        reveal_strlit(", ");
        reveal_strlit("metalness");
        reveal_strlit("specular_ior");
        reveal_strlit("coat_weight");
        reveal_strlit("); ");
        assert(body.subrange(0, 77) =~= s);
        assert(text::occurs_at(body, s, 0));
    } else if k == 1 {
        reveal_strlit("output.");
        reveal_strlit("albedo");
        reveal_strlit(" = vec4<f32>(");
        reveal_strlit("base_color");
        reveal_strlit(", ");
        reveal_strlit("opacity");
        reveal_strlit("); ");
        assert(body.subrange(104, 152) =~= s);
        assert(text::occurs_at(body, s, 104));
    } else if k == 2 {
        reveal_strlit("output.");
        reveal_strlit("normal");
        reveal_strlit(" = normal_enc; ");
        assert(body.subrange(152, 180) =~= s);
        assert(text::occurs_at(body, s, 152));
    } else if k == 3 {
        reveal_strlit("output.");
        reveal_strlit("material_id");
        reveal_strlit(" = material_id; ");
        assert(body.subrange(180, 214) =~= s);
        assert(text::occurs_at(body, s, 180));
    } else if k == 4 {
        reveal_strlit("output.");
        reveal_strlit("world_pos");
        reveal_strlit(" = world_pos_enc; ");
        assert(body.subrange(214, 248) =~= s);
        assert(text::occurs_at(body, s, 214));
    } else {
        reveal_strlit("output.");
        reveal_strlit("mat_params");
        reveal_strlit(" = mat_params; ");
        assert(body.subrange(248, 280) =~= s);
        assert(text::occurs_at(body, s, 248));
    }
}

/// The g-buffer stage fills every target with what it is named after: color and coverage of the
/// surface, encoded normal, material, encoded position, and four parameters of the material.
pub proof fn the_fragment_stage_fills_every_target(k: int)
    requires
        0 <= k < packing().len(),
    ensures
        has(gbuffer_generated::gbuffer_text(), packing()[k]),
{
    lemma_holds_packing();
    lemma_packing(k);
    declaration_laws::lemma_has_within(
        gbuffer_generated::gbuffer_text(),
        gbuffer_generated::PACKING@,
        packing()[k],
    );
}

proof fn lemma_holds_gbuffer_read()
    ensures
        has(lighting_generated::lighting_text(), lighting_generated::GBUFFER_READ@),
{
    let body = lighting_generated::GBUFFER_READ@;
    declaration_laws::lemma_has_self(body);
    declaration_laws::lemma_has_left(
        body,
        shading::shading_text(lighting_generated::TANGENTS@),
        body,
    );
    shading_laws::lemma_lighting_holds(body);
}

/// Statements that read the g-buffer back.
pub open spec fn reading_back() -> Seq<Seq<char>> {
    seq![
        "let depth = textureLoad("@ + lighting_generated::lighting_rows()[8].name@ + ", "@,
        "let albedo = textureSampleLevel("@ + lighting_generated::lighting_rows()[3].name@ + ", "@
            + lighting_generated::lighting_rows()[9].name@ + ", uv, 0.0); "@,
        "let normal_enc = textureSampleLevel("@ + lighting_generated::lighting_rows()[4].name@
            + ", "@ + lighting_generated::lighting_rows()[9].name@ + ", uv, 0.0); "@,
        "let material_id = textureLoad("@ + lighting_generated::lighting_rows()[5].name@ + ", "@,
        "let mat = "@ + lighting_generated::lighting_rows()[2].name@ + "[material_id]; "@,
        "if (albedo.a < 0.001) { discard; } "@,
        "let n = octahedral_decode(normal_enc.rg); "@,
        "let world_pos = reconstruct_world_pos(uv, depth, camera); "@,
        "let v = normalize(camera."@ + buffer_layouts::CAMERA@[2].0@ + ".xyz - world_pos); "@,
    ]
}

#[verifier::spinoff_prover]
proof fn lemma_reading_back(k: int)
    requires
        0 <= k < reading_back().len(),
    ensures
        has(lighting_generated::GBUFFER_READ@, reading_back()[k]),
{
    reveal_strlit(
        "let depth = textureLoad(depth_tex, vec2<u32>(uv * vec2<f32>(textureDimensions(depth_tex))), 0); \
    let albedo = textureSampleLevel(albedo_tex, lighting_sampler, uv, 0.0); \
    let normal_enc = textureSampleLevel(normal_tex, lighting_sampler, uv, 0.0); \
    let material_id = textureLoad(material_id_tex, vec2<u32>(uv * vec2<f32>(textureDimensions(material_id_tex))), 0).r; \
    let world_pos_enc = textureSampleLevel(world_pos_tex, lighting_sampler, uv, 0.0); \
    let mat_params = textureSampleLevel(mat_params_tex, lighting_sampler, uv, 0.0); \
    let mat = materials[material_id]; \
    if (albedo.a < 0.001) { discard; } \
    let n = octahedral_decode(normal_enc.rg); \
    let world_pos = reconstruct_world_pos(uv, depth, camera); \
    let v = normalize(camera.camera_pos.xyz - world_pos); \
    let nov = max(dot(n, v), EPS); ",
    );
    let body = lighting_generated::GBUFFER_READ@;
    let s = reading_back()[k];
    if k == 0 {
        reveal_strlit("let depth = textureLoad(");
        reveal_strlit("depth_tex");
        reveal_strlit(", ");
        assert(body.subrange(0, 35) =~= s);
        assert(text::occurs_at(body, s, 0));
    } else if k == 1 {
        reveal_strlit("let albedo = textureSampleLevel(");
        reveal_strlit("albedo_tex");
        reveal_strlit(", ");
        reveal_strlit("lighting_sampler");
        reveal_strlit(", uv, 0.0); ");
        assert(body.subrange(96, 168) =~= s);
        assert(text::occurs_at(body, s, 96));
    } else if k == 2 {
        reveal_strlit("let normal_enc = textureSampleLevel(");
        reveal_strlit("normal_tex");
        reveal_strlit(", ");
        reveal_strlit("lighting_sampler");
        reveal_strlit(", uv, 0.0); ");
        assert(body.subrange(168, 244) =~= s);
        assert(text::occurs_at(body, s, 168));
    } else if k == 3 {
        reveal_strlit("let material_id = textureLoad(");
        reveal_strlit("material_id_tex");
        reveal_strlit(", ");
        assert(body.subrange(244, 291) =~= s);
        assert(text::occurs_at(body, s, 244));
    } else if k == 4 {
        reveal_strlit("let mat = ");
        reveal_strlit("materials");
        reveal_strlit("[material_id]; ");
        assert(body.subrange(522, 556) =~= s);
        assert(text::occurs_at(body, s, 522));
    } else if k == 5 {
        reveal_strlit("if (albedo.a < 0.001) { discard; } ");
        assert(body.subrange(556, 591) =~= s);
        assert(text::occurs_at(body, s, 556));
    } else if k == 6 {
        reveal_strlit("let n = octahedral_decode(normal_enc.rg); ");
        assert(body.subrange(591, 633) =~= s);
        assert(text::occurs_at(body, s, 591));
    } else if k == 7 {
        reveal_strlit("let world_pos = reconstruct_world_pos(uv, depth, camera); ");
        assert(body.subrange(633, 691) =~= s);
        assert(text::occurs_at(body, s, 633));
    } else {
        reveal_strlit("let v = normalize(camera.");
        reveal_strlit("camera_pos");
        reveal_strlit(".xyz - world_pos); ");
        assert(body.subrange(691, 745) =~= s);
        assert(text::occurs_at(body, s, 691));
    }
}

/// The lighting stage reads the pixel back from the maps of the g-buffer, each into the local of its
/// name, takes the material that was drawn there, leaves uncovered pixels alone, and finds the position
/// from the depth.
pub proof fn the_lighting_stage_reads_every_map_by_its_name(k: int)
    requires
        0 <= k < reading_back().len(),
    ensures
        has(lighting_generated::lighting_text(), reading_back()[k]),
{
    lemma_holds_gbuffer_read();
    lemma_reading_back(k);
    declaration_laws::lemma_has_within(
        lighting_generated::lighting_text(),
        lighting_generated::GBUFFER_READ@,
        reading_back()[k],
    );
}

proof fn lemma_holds_surface()
    ensures
        has(gbuffer_generated::gbuffer_text(), gbuffer_generated::SURFACE@),
{
    let body = gbuffer_generated::SURFACE@;
    declaration_laws::lemma_has_self(body);
    let a = shading::locals_text(gbuffer_generated::SURFACE_LOCALS@);
    let b = shading::locals_text(gbuffer_generated::PARAM_LOCALS@);
    declaration_laws::lemma_has_left(body, a, body);
    declaration_laws::lemma_has_left(body + a, gbuffer_generated::ENCODING@, body);
    declaration_laws::lemma_has_left(body + a + gbuffer_generated::ENCODING@, b, body);
    declaration_laws::lemma_has_left(
        body + a + gbuffer_generated::ENCODING@ + b,
        gbuffer_generated::PACKING@,
        body,
    );
    lemma_gbuffer_holds(body);
}

/// Statements that take the drawn surface from its varyings.
pub open spec fn drawn_surface() -> Seq<Seq<char>> {
    seq![
        "let mat = materials[input."@ + interface::GBUFFER_FRAGMENT_INPUT@[4].1@ + "]; "@,
        "let n = normalize(input."@ + interface::GBUFFER_FRAGMENT_INPUT@[1].1@ + "); "@,
        "let world_pos = input."@ + interface::GBUFFER_FRAGMENT_INPUT@[0].1@ + "; "@,
    ]
}

#[verifier::spinoff_prover]
proof fn lemma_drawn_surface(k: int)
    requires
        0 <= k < drawn_surface().len(),
    ensures
        has(gbuffer_generated::SURFACE@, drawn_surface()[k]),
{
    reveal_strlit(
        "let mat = materials[input.material_index]; \
    let n = normalize(input.world_normal); \
    let world_pos = input.world_position; ",
    );
    let body = gbuffer_generated::SURFACE@;
    let s = drawn_surface()[k];
    if k == 0 {
        reveal_strlit("let mat = materials[input.");
        reveal_strlit("material_index");
        reveal_strlit("]; ");
        assert(body.subrange(0, 43) =~= s);
        assert(text::occurs_at(body, s, 0));
    } else if k == 1 {
        reveal_strlit("let n = normalize(input.");
        reveal_strlit("world_normal");
        reveal_strlit("); ");
        assert(body.subrange(43, 82) =~= s);
        assert(text::occurs_at(body, s, 43));
    } else {
        reveal_strlit("let world_pos = input.");
        reveal_strlit("world_position");
        reveal_strlit("; ");
        assert(body.subrange(82, 120) =~= s);
        assert(text::occurs_at(body, s, 82));
    }
}

/// The g-buffer stage takes material, normal and position of the surface from its varyings.
pub proof fn the_gbuffer_stage_takes_the_interpolated_surface(k: int)
    requires
        0 <= k < drawn_surface().len(),
    ensures
        has(gbuffer_generated::gbuffer_text(), drawn_surface()[k]),
{
    lemma_holds_surface();
    lemma_drawn_surface(k);
    declaration_laws::lemma_has_within(
        gbuffer_generated::gbuffer_text(),
        gbuffer_generated::SURFACE@,
        drawn_surface()[k],
    );
}

proof fn lemma_holds_encoding()
    ensures
        has(gbuffer_generated::gbuffer_text(), gbuffer_generated::ENCODING@),
{
    let body = gbuffer_generated::ENCODING@;
    declaration_laws::lemma_has_self(body);
    let before = gbuffer_generated::SURFACE@ + shading::locals_text(
        gbuffer_generated::SURFACE_LOCALS@,
    );
    let b = shading::locals_text(gbuffer_generated::PARAM_LOCALS@);
    declaration_laws::lemma_has_right(before, body, body);
    declaration_laws::lemma_has_left(before + body, b, body);
    declaration_laws::lemma_has_left(before + body + b, gbuffer_generated::PACKING@, body);
    lemma_gbuffer_holds(body);
}

/// Statements that encode the surface.
pub open spec fn encoding() -> Seq<Seq<char>> {
    seq![
        "let normal_enc = octahedral_encode(n); "@,
        "let material_id = input."@ + interface::GBUFFER_FRAGMENT_INPUT@[4].1@ + "; "@,
        "let world_pos_enc = vec2<f32>(world_pos.x, world_pos.y); "@,
    ]
}

#[verifier::spinoff_prover]
proof fn lemma_encoding(k: int)
    requires
        0 <= k < encoding().len(),
    ensures
        has(gbuffer_generated::ENCODING@, encoding()[k]),
{
    reveal_strlit(
        "let normal_enc = octahedral_encode(n); \
    let material_id = input.material_index; \
    let world_pos_enc = vec2<f32>(world_pos.x, world_pos.y); ",
    );
    let body = gbuffer_generated::ENCODING@;
    let s = encoding()[k];
    if k == 0 {
        reveal_strlit("let normal_enc = octahedral_encode(n); ");
        assert(body.subrange(0, 39) =~= s);
        assert(text::occurs_at(body, s, 0));
    } else if k == 1 {
        reveal_strlit("let material_id = input.");
        reveal_strlit("material_index");
        reveal_strlit("; ");
        assert(body.subrange(39, 79) =~= s);
        assert(text::occurs_at(body, s, 39));
    } else {
        reveal_strlit("let world_pos_enc = vec2<f32>(world_pos.x, world_pos.y); ");
        assert(body.subrange(79, 136) =~= s);
        assert(text::occurs_at(body, s, 79));
    }
}

/// The g-buffer stage encodes the normal of the surface and keeps the number of its material.
pub proof fn the_gbuffer_stage_encodes_the_surface(k: int)
    requires
        0 <= k < encoding().len(),
    ensures
        has(gbuffer_generated::gbuffer_text(), encoding()[k]),
{
    lemma_holds_encoding();
    lemma_encoding(k);
    declaration_laws::lemma_has_within(
        gbuffer_generated::gbuffer_text(),
        gbuffer_generated::ENCODING@,
        encoding()[k],
    );
}

proof fn lemma_holds_forward_surface()
    ensures
        has(pbr_generated::pbr_text(), pbr_generated::SURFACE@),
{
    let body = pbr_generated::SURFACE@;
    declaration_laws::lemma_has_self(body);
    declaration_laws::lemma_has_left(body, shading::shading_text(""@), body);
    shading_laws::lemma_pbr_holds(body);
}

/// Statements that take the shaded surface from its varyings.
pub open spec fn shaded_surface() -> Seq<Seq<char>> {
    seq![
        "let mat = materials[input."@ + interface::GBUFFER_FRAGMENT_INPUT@[4].1@ + "]; "@,
        "let n = normalize(input."@ + interface::GBUFFER_FRAGMENT_INPUT@[1].1@ + "); "@,
        "let v = normalize(camera."@ + buffer_layouts::CAMERA@[2].0@ + ".xyz - input."@
            + interface::GBUFFER_FRAGMENT_INPUT@[0].1@ + "); "@,
        "let t = normalize(input."@ + interface::GBUFFER_FRAGMENT_INPUT@[3].1@ + "); "@,
    ]
}

#[verifier::spinoff_prover]
proof fn lemma_shaded_surface(k: int)
    requires
        0 <= k < shaded_surface().len(),
    ensures
        has(pbr_generated::SURFACE@, shaded_surface()[k]),
{
    reveal_strlit(
        "let mat = materials[input.material_index]; \
    let n = normalize(input.world_normal); \
    let v = normalize(camera.camera_pos.xyz - input.world_position); \
    let nov = max(dot(n, v), EPS); \
    let t = normalize(input.world_tangent); \
    let b = cross(n, t); ",
    );
    let body = pbr_generated::SURFACE@;
    let s = shaded_surface()[k];
    if k == 0 {
        reveal_strlit("let mat = materials[input.");
        reveal_strlit("material_index");
        reveal_strlit("]; ");
        assert(body.subrange(0, 43) =~= s);
        assert(text::occurs_at(body, s, 0));
    } else if k == 1 {
        reveal_strlit("let n = normalize(input.");
        reveal_strlit("world_normal");
        reveal_strlit("); ");
        assert(body.subrange(43, 82) =~= s);
        assert(text::occurs_at(body, s, 43));
    } else if k == 2 {
        reveal_strlit("let v = normalize(camera.");
        reveal_strlit("camera_pos");
        reveal_strlit(".xyz - input.");
        reveal_strlit("world_position");
        reveal_strlit("); ");
        assert(body.subrange(82, 147) =~= s);
        assert(text::occurs_at(body, s, 82));
    } else {
        reveal_strlit("let t = normalize(input.");
        reveal_strlit("world_tangent");
        reveal_strlit("); ");
        assert(body.subrange(178, 218) =~= s);
        assert(text::occurs_at(body, s, 178));
    }
}

/// The forward stage takes material, normal and tangent of the surface from its varyings, and looks at
/// it from the camera.
pub proof fn the_forward_stage_takes_the_interpolated_surface(k: int)
    requires
        0 <= k < shaded_surface().len(),
    ensures
        has(pbr_generated::pbr_text(), shaded_surface()[k]),
{
    lemma_holds_forward_surface();
    lemma_shaded_surface(k);
    declaration_laws::lemma_has_within(
        pbr_generated::pbr_text(),
        pbr_generated::SURFACE@,
        shaded_surface()[k],
    );
}

proof fn lemma_ending(tangents: Seq<char>)
    ensures
        has(shading::shading_text(tangents), shading::AMBIENT@),
        has(shading::shading_text(tangents), shading::RESULT@),
{
    let all = shading::shading_text(tangents);
    let emission = crate::shaders::source::call_text(
        "emission"@,
        "evaluate_emission"@,
        crate::shaders::helpers::EMISSION_PARAMS@,
    );
    let back = emission + shading::RESULT@;
    let front = all.subrange(0, all.len() - back.len() - shading::AMBIENT@.len());
    assert(all =~= front + shading::AMBIENT@ + back);
    declaration_laws::lemma_has_between(front, shading::AMBIENT@, back);
    let most = all.subrange(0, all.len() - shading::RESULT@.len());
    assert(all =~= most + shading::RESULT@);
    declaration_laws::lemma_has_self(shading::RESULT@);
    declaration_laws::lemma_has_right(most, shading::RESULT@, shading::RESULT@);
}

proof fn lemma_hold_ambient()
    ensures
        has(lighting_generated::lighting_text(), shading::AMBIENT@),
        has(pbr_generated::pbr_text(), shading::AMBIENT@),
{
    let body = shading::AMBIENT@;
    lemma_ending(lighting_generated::TANGENTS@);
    lemma_ending(""@);
    shading_laws::lemma_both_stages_hold(body);
}

proof fn lemma_hold_result()
    ensures
        has(lighting_generated::lighting_text(), shading::RESULT@),
        has(pbr_generated::pbr_text(), shading::RESULT@),
{
    let body = shading::RESULT@;
    lemma_ending(lighting_generated::TANGENTS@);
    lemma_ending(""@);
    shading_laws::lemma_both_stages_hold(body);
}

/// The statement of the ambient light.
pub open spec fn ambient_light() -> Seq<Seq<char>> {
    seq![
        "let ambient = lighting."@ + buffer_layouts::LIGHTING@[0].0@
            + ".rgb * mix(base_color, base_color * specular_weight, metalness); "@,
    ]
}

#[verifier::spinoff_prover]
proof fn lemma_ambient_light(k: int)
    requires
        0 <= k < ambient_light().len(),
    ensures
        has(shading::AMBIENT@, ambient_light()[k]),
{
    reveal_strlit(
        "let ambient = lighting.ambient_color.rgb * mix(base_color, base_color * specular_weight, metalness); ",
    );
    let body = shading::AMBIENT@;
    let s = ambient_light()[k];
    assert(k == 0);
    reveal_strlit("let ambient = lighting.");
    reveal_strlit("ambient_color");
    reveal_strlit(".rgb * mix(base_color, base_color * specular_weight, metalness); ");
    assert(body.subrange(0, 101) =~= s);
    assert(text::occurs_at(body, s, 0));
}

/// Ambient light falls on every surface in the color that was uploaded.
pub proof fn ambient_light_falls_on_every_surface(k: int)
    requires
        0 <= k < ambient_light().len(),
    ensures
        has(lighting_generated::lighting_text(), ambient_light()[k]),
        has(pbr_generated::pbr_text(), ambient_light()[k]),
{
    lemma_hold_ambient();
    lemma_ambient_light(k);
    declaration_laws::lemma_has_within(
        lighting_generated::lighting_text(),
        shading::AMBIENT@,
        ambient_light()[k],
    );
    declaration_laws::lemma_has_within(
        pbr_generated::pbr_text(),
        shading::AMBIENT@,
        ambient_light()[k],
    );
}

/// Statements that sum the light up.
pub open spec fn summing_up() -> Seq<Seq<char>> {
    seq![
        "let color = ambient + lo + emission; "@,
        "let tone_mapped = aces_tonemap(color); "@,
        "return vec4<f32>(tone_mapped, opacity);"@,
    ]
}

#[verifier::spinoff_prover]
proof fn lemma_summing_up(k: int)
    requires
        0 <= k < summing_up().len(),
    ensures
        has(shading::RESULT@, summing_up()[k]),
{
    reveal_strlit(
        "let color = ambient + lo + emission; \
    let tone_mapped = aces_tonemap(color); \
    return vec4<f32>(tone_mapped, opacity);",
    );
    let body = shading::RESULT@;
    let s = summing_up()[k];
    if k == 0 {
        reveal_strlit("let color = ambient + lo + emission; ");
        assert(body.subrange(0, 37) =~= s);
        assert(text::occurs_at(body, s, 0));
    } else if k == 1 {
        reveal_strlit("let tone_mapped = aces_tonemap(color); ");
        assert(body.subrange(37, 76) =~= s);
        assert(text::occurs_at(body, s, 37));
    } else {
        reveal_strlit("return vec4<f32>(tone_mapped, opacity);");
        assert(body.subrange(76, 115) =~= s);
        assert(text::occurs_at(body, s, 76));
    }
}

/// What a fragment shows is the sum of ambient, direct and emitted light, with its tones mapped, as
/// opaque as its material.
pub proof fn all_light_is_summed_before_tones_are_mapped(k: int)
    requires
        0 <= k < summing_up().len(),
    ensures
        has(lighting_generated::lighting_text(), summing_up()[k]),
        has(pbr_generated::pbr_text(), summing_up()[k]),
{
    lemma_hold_result();
    lemma_summing_up(k);
    declaration_laws::lemma_has_within(
        lighting_generated::lighting_text(),
        shading::RESULT@,
        summing_up()[k],
    );
    declaration_laws::lemma_has_within(
        pbr_generated::pbr_text(),
        shading::RESULT@,
        summing_up()[k],
    );
}

proof fn lemma_digit(d: nat)
    requires
        d < 10,
    ensures
        text::decimal(d).len() == 1,
        text::decimal(d)[0] == text::digit(d),
{
}

proof fn lemma_holds_mixing()
    ensures
        has(hdr_composite_generated::hdr_text(), hdr_composite_generated::FRAGMENT_BODY@),
{
    let body = hdr_composite_generated::FRAGMENT_BODY@;
    declaration_laws::lemma_has_self(body);
    shading_laws::lemma_entry_has(
        "@fragment"@,
        hdr_composite_generated::FRAGMENT_ENTRY_POINT@,
        "input: QuadVertexOutput"@,
        "@location(0) vec4<f32>"@,
        body,
        body,
    );
    let entry = hdr_composite_generated::fragment_entry_text();
    let all = hdr_composite_generated::hdr_text();
    let back = "\n"@ + math::ACES_TONEMAP@ + "\n"@ + math::LUMINANCE@;
    let front = all.subrange(0, all.len() - entry.len() - back.len());
    assert(all =~= front + entry + back);
    lemma_module_has(front, entry, back, body);
}

/// Statements that mix the layers.
pub open spec fn mixing() -> Seq<Seq<char>> {
    seq![
        "let deferred_color = textureSample("@ + hdr_composite_generated::hdr_rows()[0].name@
            + ", "@ + hdr_composite_generated::hdr_rows()[2].name@ + ", input.uv).rgb; "@,
        "let forward_color = textureSample("@ + hdr_composite_generated::hdr_rows()[1].name@
            + ", "@ + hdr_composite_generated::hdr_rows()[2].name@ + ", input.uv).rgba; "@,
        "var combined = deferred_color; "@,
        "if ("@ + hdr_composite_generated::hdr_rows()[4].name@ + "."@
            + buffer_layouts::BLOOM@[2].0@ + " == "@
            + text::decimal(Technique::Forward.mode() as nat)
            + ") { combined = forward_color.rgb * forward_color.a; } "@,
        "if ("@ + hdr_composite_generated::hdr_rows()[4].name@ + "."@
            + buffer_layouts::BLOOM@[2].0@ + " == "@
            + text::decimal(Technique::Hybrid.mode() as nat)
            + ") { combined = deferred_color + forward_color.rgb * forward_color.a; } "@,
        "let bloom = textureSample("@ + hdr_composite_generated::hdr_rows()[3].name@ + ", "@
            + hdr_composite_generated::hdr_rows()[2].name@ + ", input.uv).rgb; "@,
        "let tonemapped = aces_tonemap(combined + bloom * "@
            + hdr_composite_generated::hdr_rows()[4].name@ + "."@ + buffer_layouts::BLOOM@[1].0@
            + "); return vec4<f32>(tonemapped, 1.0);"@,
    ]
}

#[verifier::spinoff_prover]
proof fn lemma_mixing(k: int)
    requires
        0 <= k < mixing().len(),
    ensures
        has(hdr_composite_generated::FRAGMENT_BODY@, mixing()[k]),
{
    reveal_strlit(
        "let deferred_color = textureSample(deferred_tex, composite_sampler, input.uv).rgb; \
    let forward_color = textureSample(forward_tex, composite_sampler, input.uv).rgba; \
    var combined = deferred_color; \
    if (bloom_params.mode == 1) { combined = forward_color.rgb * forward_color.a; } \
    else { if (bloom_params.mode == 2) { \
    combined = deferred_color + forward_color.rgb * forward_color.a; } } \
    let bloom = textureSample(bloom_tex, composite_sampler, input.uv).rgb; \
    let tonemapped = aces_tonemap(combined + bloom * bloom_params.intensity); \
    return vec4<f32>(tonemapped, 1.0);",
    );
    let body = hdr_composite_generated::FRAGMENT_BODY@;
    let s = mixing()[k];
    if k == 0 {
        reveal_strlit("let deferred_color = textureSample(");
        reveal_strlit("deferred_tex");
        reveal_strlit(", ");
        reveal_strlit("composite_sampler");
        reveal_strlit(", input.uv).rgb; ");
        assert(body.subrange(0, 83) =~= s);
        assert(text::occurs_at(body, s, 0));
    } else if k == 1 {
        reveal_strlit("let forward_color = textureSample(");
        reveal_strlit("forward_tex");
        reveal_strlit(", ");
        reveal_strlit("composite_sampler");
        reveal_strlit(", input.uv).rgba; ");
        assert(body.subrange(83, 165) =~= s);
        assert(text::occurs_at(body, s, 83));
    } else if k == 2 {
        reveal_strlit("var combined = deferred_color; ");
        assert(body.subrange(165, 196) =~= s);
        assert(text::occurs_at(body, s, 165));
    } else if k == 3 {
        reveal_strlit("if (");
        reveal_strlit("bloom_params");
        reveal_strlit(".");
        reveal_strlit("mode");
        reveal_strlit(" == ");
        lemma_digit(1);
        reveal_strlit(") { combined = forward_color.rgb * forward_color.a; } ");
        assert(body.subrange(196, 276) =~= s);
        assert(text::occurs_at(body, s, 196));
    } else if k == 4 {
        reveal_strlit("if (");
        reveal_strlit("bloom_params");
        reveal_strlit(".");
        reveal_strlit("mode");
        reveal_strlit(" == ");
        lemma_digit(2);
        reveal_strlit(") { combined = deferred_color + forward_color.rgb * forward_color.a; } ");
        assert(body.subrange(283, 380) =~= s);
        assert(text::occurs_at(body, s, 283));
    } else if k == 5 {
        reveal_strlit("let bloom = textureSample(");
        reveal_strlit("bloom_tex");
        reveal_strlit(", ");
        reveal_strlit("composite_sampler");
        reveal_strlit(", input.uv).rgb; ");
        assert(body.subrange(382, 453) =~= s);
        assert(text::occurs_at(body, s, 382));
    } else {
        reveal_strlit("let tonemapped = aces_tonemap(combined + bloom * ");
        reveal_strlit("bloom_params");
        reveal_strlit(".");
        reveal_strlit("intensity");
        reveal_strlit("); return vec4<f32>(tonemapped, 1.0);");
        assert(body.subrange(453, 561) =~= s);
        assert(text::occurs_at(body, s, 453));
    }
}

/// The composite stage samples every layer under its name. It shows the deferred layer alone, but in
/// the mode of the forward technique the forward layer alone, and in the mode of the hybrid technique
/// both. The bloom layer is added by its intensity before tones are mapped.
pub proof fn the_composite_stage_mixes_by_mode(k: int)
    requires
        0 <= k < mixing().len(),
    ensures
        has(hdr_composite_generated::hdr_text(), mixing()[k]),
{
    lemma_holds_mixing();
    lemma_mixing(k);
    declaration_laws::lemma_has_within(
        hdr_composite_generated::hdr_text(),
        hdr_composite_generated::FRAGMENT_BODY@,
        mixing()[k],
    );
}

proof fn lemma_holds_gating()
    ensures
        has(bloom_generated::bloom_text(), bloom_generated::FRAGMENT_BODY@),
{
    let body = bloom_generated::FRAGMENT_BODY@;
    declaration_laws::lemma_has_self(body);
    shading_laws::lemma_entry_has(
        "@fragment"@,
        bloom_generated::FRAGMENT_ENTRY_POINT@,
        "@location(0) uv: vec2<f32>"@,
        "@location(0) vec4<f32>"@,
        body,
        body,
    );
    let entry = bloom_generated::fragment_entry_text();
    let all = bloom_generated::bloom_text();
    let front = all.subrange(0, all.len() - entry.len() - "\n"@.len());
    assert(all =~= front + entry + "\n"@);
    lemma_module_has(front, entry, "\n"@, body);
}

/// Statements that gate the bloom chain.
pub open spec fn gating() -> Seq<Seq<char>> {
    seq![
        "let color = textureSample("@ + bloom_generated::bloom_rows()[0].name@ + ", "@
            + bloom_generated::bloom_rows()[1].name@ + ", uv).rgb; let luma = luminance(color); "@,
        "let keep = smoothstep("@ + bloom_generated::bloom_rows()[2].name@ + "."@
            + buffer_layouts::BLOOM@[0].0@ + ", "@ + bloom_generated::bloom_rows()[2].name@ + "."@
            + buffer_layouts::BLOOM@[0].0@ + " + 0.05, luma); "@,
        "return vec4<f32>(color * keep, 1.0);"@,
    ]
}

#[verifier::spinoff_prover]
proof fn lemma_gating(k: int)
    requires
        0 <= k < gating().len(),
    ensures
        has(bloom_generated::FRAGMENT_BODY@, gating()[k]),
{
    reveal_strlit(
        "let color = textureSample(src_tex, src_sampler, uv).rgb; \
    let luma = luminance(color); \
    let keep = smoothstep(bloom_params.threshold, bloom_params.threshold + 0.05, luma); \
    return vec4<f32>(color * keep, 1.0);",
    );
    let body = bloom_generated::FRAGMENT_BODY@;
    let s = gating()[k];
    if k == 0 {
        reveal_strlit("let color = textureSample(");
        reveal_strlit("src_tex");
        reveal_strlit(", ");
        reveal_strlit("src_sampler");
        reveal_strlit(", uv).rgb; let luma = luminance(color); ");
        assert(body.subrange(0, 86) =~= s);
        assert(text::occurs_at(body, s, 0));
    } else if k == 1 {
        reveal_strlit("let keep = smoothstep(");
        reveal_strlit("bloom_params");
        reveal_strlit(".");
        reveal_strlit("threshold");
        reveal_strlit(", ");
        reveal_strlit(" + 0.05, luma); ");
        assert(body.subrange(86, 170) =~= s);
        assert(text::occurs_at(body, s, 86));
    } else {
        reveal_strlit("return vec4<f32>(color * keep, 1.0);");
        assert(body.subrange(170, 206) =~= s);
        assert(text::occurs_at(body, s, 170));
    }
}

/// The bloom stage samples its source and keeps of it what is brighter than the threshold.
pub proof fn the_bloom_stage_keeps_what_is_brighter(k: int)
    requires
        0 <= k < gating().len(),
    ensures
        has(bloom_generated::bloom_text(), gating()[k]),
{
    lemma_holds_gating();
    lemma_gating(k);
    declaration_laws::lemma_has_within(
        bloom_generated::bloom_text(),
        bloom_generated::FRAGMENT_BODY@,
        gating()[k],
    );
}

proof fn lemma_holds_overlay()
    ensures
        has(composite_generated::composite_text(), composite_generated::FRAGMENT_BODY@),
{
    let body = composite_generated::FRAGMENT_BODY@;
    declaration_laws::lemma_has_self(body);
    shading_laws::lemma_entry_has(
        "@fragment"@,
        composite_generated::FRAGMENT_ENTRY_POINT@,
        "input: VertexOutput"@,
        "@location(0) vec4<f32>"@,
        body,
        body,
    );
    let entry = composite_generated::fragment_entry_text(composite_generated::FRAGMENT_ENTRY_POINT@);
    let all = composite_generated::composite_text();
    let front = all.subrange(0, all.len() - entry.len() - "\n"@.len());
    assert(all =~= front + entry + "\n"@);
    lemma_module_has(front, entry, "\n"@, body);
}

/// Statements that cover the image.
pub open spec fn covering() -> Seq<Seq<char>> {
    seq![
        "let bg = textureSampleLevel("@ + composite_generated::composite_rows()[0].name@ + ", "@
            + composite_generated::composite_rows()[1].name@ + ", input.uv, 0.0); "@,
        "let ui = textureSampleLevel("@ + composite_generated::composite_rows()[2].name@ + ", "@
            + composite_generated::composite_rows()[3].name@ + ", input.uv, 0.0); "@,
        "let ui_linear = srgb_to_linear(ui.rgb); "@,
        "return vec4<f32>(mix(bg.rgb, ui_linear, ui.a), 1.0);"@,
    ]
}

#[verifier::spinoff_prover]
proof fn lemma_covering(k: int)
    requires
        0 <= k < covering().len(),
    ensures
        has(composite_generated::FRAGMENT_BODY@, covering()[k]),
{
    reveal_strlit(
        "let bg = textureSampleLevel(pbr_tex, pbr_sampler, input.uv, 0.0); \
    let ui = textureSampleLevel(ui_tex, ui_sampler, input.uv, 0.0); \
    let ui_linear = srgb_to_linear(ui.rgb); \
    return vec4<f32>(mix(bg.rgb, ui_linear, ui.a), 1.0);",
    );
    let body = composite_generated::FRAGMENT_BODY@;
    let s = covering()[k];
    if k == 0 {
        reveal_strlit("let bg = textureSampleLevel(");
        reveal_strlit("pbr_tex");
        reveal_strlit(", ");
        reveal_strlit("pbr_sampler");
        reveal_strlit(", input.uv, 0.0); ");
        assert(body.subrange(0, 66) =~= s);
        assert(text::occurs_at(body, s, 0));
    } else if k == 1 {
        reveal_strlit("let ui = textureSampleLevel(");
        reveal_strlit("ui_tex");
        reveal_strlit(", ");
        reveal_strlit("ui_sampler");
        reveal_strlit(", input.uv, 0.0); ");
        assert(body.subrange(66, 130) =~= s);
        assert(text::occurs_at(body, s, 66));
    } else if k == 2 {
        reveal_strlit("let ui_linear = srgb_to_linear(ui.rgb); ");
        assert(body.subrange(130, 170) =~= s);
        assert(text::occurs_at(body, s, 130));
    } else {
        reveal_strlit("return vec4<f32>(mix(bg.rgb, ui_linear, ui.a), 1.0);");
        assert(body.subrange(170, 222) =~= s);
        assert(text::occurs_at(body, s, 170));
    }
}

/// The user interface covers the lit image by its own alpha, after its colors are made linear.
pub proof fn the_interface_covers_the_image_by_its_alpha(k: int)
    requires
        0 <= k < covering().len(),
    ensures
        has(composite_generated::composite_text(), covering()[k]),
{
    lemma_holds_overlay();
    lemma_covering(k);
    declaration_laws::lemma_has_within(
        composite_generated::composite_text(),
        composite_generated::FRAGMENT_BODY@,
        covering()[k],
    );
}

} // verus!
