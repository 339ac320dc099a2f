//! The fragment body that deferred lighting and forward shading share.
use vstd::prelude::*;
#[allow(unused_imports)]
use vstd::string::*;

use crate::shaders::helpers;
use crate::shaders::source;
use crate::shaders::source::Typed;

verus! {

/// A local read from the material: its name, the slot and the components.
pub type MaterialLocal = (&'static str, &'static str, &'static str);

/// Locals of a shaded fragment, in the order in which they are read.
pub const MATERIAL_LOCALS: [MaterialLocal; 39] = [
    ("base_weight", "base_params", "x"),
    ("base_color", "base_color", "rgb"),
    ("metalness", "base_params", "z"),
    ("diffuse_roughness", "base_params", "y"),
    ("specular_weight", "specular_params", "x"),
    ("specular_roughness", "specular_params", "y"),
    ("specular_ior", "specular_params", "z"),
    ("specular_anisotropy", "specular_params", "w"),
    ("specular_edge_tint", "specular_color", "rgb"),
    ("transmission_weight", "transmission_params", "x"),
    ("transmission_depth", "transmission_params", "y"),
    ("transmission_dispersion_scale", "transmission_params", "z"),
    ("transmission_dispersion_abbe", "transmission_params", "w"),
    ("transmission_color", "transmission_color", "rgb"),
    ("transmission_scatter", "transmission_scatter", "rgb"),
    ("transmission_scatter_anisotropy", "transmission_scatter", "a"),
    ("subsurface_weight", "subsurface_params", "x"),
    ("subsurface_radius", "subsurface_params", "y"),
    ("subsurface_radius_scale_r", "subsurface_params", "z"),
    ("subsurface_scatter_anisotropy", "subsurface_params", "w"),
    ("subsurface_color", "subsurface_color", "rgb"),
    ("subsurface_radius_scale_g", "subsurface_radius_scale_gb", "x"),
    ("subsurface_radius_scale_b", "subsurface_radius_scale_gb", "y"),
    ("fuzz_weight", "fuzz_params", "x"),
    ("fuzz_roughness", "fuzz_params", "y"),
    ("fuzz_color", "fuzz_color", "rgb"),
    ("coat_weight", "coat_params", "x"),
    ("coat_roughness", "coat_params", "y"),
    ("coat_anisotropy", "coat_params", "z"),
    ("coat_darkening", "coat_params", "w"),
    ("coat_color", "coat_color", "rgb"),
    ("coat_ior", "coat_ior", "x"),
    ("thin_film_weight", "thin_film_params", "x"),
    ("thin_film_thickness_um", "thin_film_params", "y"),
    ("thin_film_ior", "thin_film_params", "z"),
    ("emission_luminance", "emission_params", "x"),
    ("emission_color", "emission_color", "rgb"),
    ("opacity", "geometry_params", "x"),
    ("thin_walled", "geometry_params", "y"),
];

/// Start of the light loop: directions and cosines of one light, and the way out for a light
/// behind the surface.
pub const LIGHT_LOOP_HEAD: &'static str = "for (var i: u32 = 0; i < lighting.light_count; i = i + 1) { \
    let l = normalize(lighting.lights[i].direction.xyz); \
    let h = normalize(v + l); \
    let light_color = lighting.lights[i].color.rgb; \
    let intensity = lighting.lights[i].color.w; \
    let radiance = light_color * intensity; \
    let nol = max(dot(n, l), EPS); \
    let noh = max(dot(n, h), EPS); \
    let voh = max(dot(v, h), EPS); \
    if (nol <= EPS) { continue; } ";

/// Accumulator and film term of the light loop.
pub const LIGHT_LOOP_LOCALS: &'static str = "var lo = vec3<f32>(0.0, 0.0, 0.0); \
    let thin_film_mod = thin_film_modulation(nov, thin_film_ior, thin_film_thickness_um, 1.0); ";

/// End of the light loop: the sum of the layers.
pub const LIGHT_LOOP_TAIL: &'static str = "let layer_bsdf = base_bsdf + coat_bsdf + fuzz_bsdf + trans_bsdf + ss_bsdf; \
    lo = lo + layer_bsdf * radiance * nol; } ";

/// Ambient term.
pub const AMBIENT: &'static str = "let ambient = lighting.ambient_color.rgb * mix(base_color, base_color * specular_weight, metalness); ";

/// Tone-mapped result.
pub const RESULT: &'static str = "let color = ambient + lo + emission; \
    let tone_mapped = aces_tonemap(color); \
    return vec4<f32>(tone_mapped, opacity);";

/// Arguments of the coat evaluator: its parameters, with the fragment's own names for two of
/// them.
pub const COAT_LAYER_ARGS: [Typed; 23] = [
    ("n", "vec3<f32>"),
    ("v", "vec3<f32>"),
    ("l", "vec3<f32>"),
    ("h", "vec3<f32>"),
    ("nov", "f32"),
    ("nol", "f32"),
    ("noh", "f32"),
    ("voh", "f32"),
    ("mat", "OpenPBRMaterial"),
    ("coat_weight", "f32"),
    ("coat_roughness", "f32"),
    ("coat_anisotropy", "f32"),
    ("coat_darkening", "f32"),
    ("coat_ior", "f32"),
    ("coat_color", "vec3<f32>"),
    ("metalness", "f32"),
    ("base_color", "vec3<f32>"),
    ("base_weight", "f32"),
    ("specular_weight", "f32"),
    ("subsurface_weight", "f32"),
    ("subsurface_color", "vec3<f32>"),
    ("t", "vec3<f32>"),
    ("b", "vec3<f32>"),
];

/// Reads of the locals.
pub open spec fn locals_text(rows: Seq<MaterialLocal>) -> Seq<char>
    decreases rows.len(),
{
    if rows.len() == 0 {
        Seq::empty()
    } else {
        locals_text(rows.drop_last()) + ("let "@ + rows.last().0@ + " = mat."@ + rows.last().1@
            + "."@ + rows.last().2@ + "; "@)
    }
}

/// Appends reads of material locals.
pub fn push_locals(out: &mut String, rows: &[MaterialLocal])
    ensures
        final(out)@ == old(out)@ + locals_text(rows@),
{
    let ghost before = out@;
    assert(rows@.subrange(0, 0) == Seq::<MaterialLocal>::empty());
    assert(before + Seq::<char>::empty() == before);
    for i in 0..rows.len()
        invariant
            out@ == before + locals_text(rows@.subrange(0, i as int)),
    {
        proof {
            let next = rows@.subrange(0, i + 1);
            assert(next.drop_last() == rows@.subrange(0, i as int));
            assert(next.last() == rows@[i as int]);
        }
        out.append("let ");
        out.append(rows[i].0);
        out.append(" = mat.");
        out.append(rows[i].1);
        out.append(".");
        out.append(rows[i].2);
        out.append("; ");
        assert(out@ == before + locals_text(rows@.subrange(0, i + 1)));
    }
    assert(rows@.subrange(0, rows@.len() as int) == rows@);
}

/// One call per layer.
pub open spec fn layer_calls() -> Seq<char> {
    source::call_text("base_bsdf"@, "evaluate_base_layer"@, helpers::BASE_LAYER_PARAMS@)
        + source::call_text("coat_bsdf"@, "evaluate_coat_layer"@, COAT_LAYER_ARGS@)
        + source::call_text("fuzz_bsdf"@, "evaluate_fuzz_layer"@, helpers::FUZZ_LAYER_PARAMS@)
        + source::call_text(
        "trans_bsdf"@,
        "evaluate_transmission_layer"@,
        helpers::TRANSMISSION_LAYER_PARAMS@,
    ) + source::call_text(
        "ss_bsdf"@,
        "evaluate_subsurface_layer"@,
        helpers::SUBSURFACE_LAYER_PARAMS@,
    )
}

/// The shared body: material locals, the light loop over all layers, ambient light, emission and
/// tone mapping. `tangents` stands before the loop.
pub open spec fn shading_text(tangents: Seq<char>) -> Seq<char> {
    locals_text(MATERIAL_LOCALS@) + LIGHT_LOOP_LOCALS@ + tangents + LIGHT_LOOP_HEAD@
        + layer_calls() + LIGHT_LOOP_TAIL@ + AMBIENT@ + source::call_text(
        "emission"@,
        "evaluate_emission"@,
        helpers::EMISSION_PARAMS@,
    ) + RESULT@
}

/// Appends the shared body of a shaded fragment.
pub fn push_shading(out: &mut String, tangents: &str)
    ensures
        final(out)@ == old(out)@ + shading_text(tangents@),
{
    let ghost before = out@;
    push_locals(out, &MATERIAL_LOCALS);
    out.append(LIGHT_LOOP_LOCALS);
    out.append(tangents);
    out.append(LIGHT_LOOP_HEAD);
    let ghost head = out@;
    source::push_call(out, "base_bsdf", "evaluate_base_layer", &helpers::BASE_LAYER_PARAMS);
    source::push_call(out, "coat_bsdf", "evaluate_coat_layer", &COAT_LAYER_ARGS);
    source::push_call(out, "fuzz_bsdf", "evaluate_fuzz_layer", &helpers::FUZZ_LAYER_PARAMS);
    source::push_call(
        out,
        "trans_bsdf",
        "evaluate_transmission_layer",
        &helpers::TRANSMISSION_LAYER_PARAMS,
    );
    source::push_call(
        out,
        "ss_bsdf",
        "evaluate_subsurface_layer",
        &helpers::SUBSURFACE_LAYER_PARAMS,
    );
    assert(out@ == head + layer_calls());
    out.append(LIGHT_LOOP_TAIL);
    out.append(AMBIENT);
    source::push_call(out, "emission", "evaluate_emission", &helpers::EMISSION_PARAMS);
    out.append(RESULT);
    assert(out@ == before + shading_text(tangents@));
}

} // verus!
