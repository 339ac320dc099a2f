//! Layer evaluators shared by deferred lighting and forward shading.
use vstd::prelude::*;
#[allow(unused_imports)]
use vstd::string::*;

use crate::shaders::source;
use crate::shaders::source::Typed;
use crate::text;

verus! {

/// Single-precision pi, in the shortest decimal spelling that reads back as the same number.
pub const PI: &'static str = "3.1415927";

/// Guard against division by zero.
pub const EPS: &'static str = "0.000001";

/// Single-precision reciprocal of pi.
pub const INV_PI: &'static str = "0.31830987";

/// Result type of every evaluator.
pub const COLOR: &'static str = "vec3<f32>";

/// The constants that kernels and evaluators use.
pub open spec fn consts_text() -> Seq<char> {
    "const PI: f32 = "@ + PI@ + ";\nconst EPS: f32 = "@ + EPS@ + ";\nconst INV_PI: f32 = "@ + INV_PI@
        + ";\n"@
}

/// The constants that kernels and evaluators use.
pub fn wgsl_consts() -> (out: String)
    ensures
        out@ == consts_text(),
{
    let mut out: String = "const PI: f32 = ".to_owned();
    out.append(PI);
    out.append(";\nconst EPS: f32 = ");
    out.append(EPS);
    out.append(";\nconst INV_PI: f32 = ");
    out.append(INV_PI);
    out.append(";\n");
    out
}

/// Parameters of [`evaluate_base_layer`].
pub const BASE_LAYER_PARAMS: [Typed; 21] = [
    ("n", "vec3<f32>"),
    ("v", "vec3<f32>"),
    ("l", "vec3<f32>"),
    ("h", "vec3<f32>"),
    ("nov", "f32"),
    ("nol", "f32"),
    ("noh", "f32"),
    ("voh", "f32"),
    ("mat", "OpenPBRMaterial"),
    ("base_weight", "f32"),
    ("base_color", "vec3<f32>"),
    ("metalness", "f32"),
    ("diffuse_roughness", "f32"),
    ("specular_weight", "f32"),
    ("specular_roughness", "f32"),
    ("specular_ior", "f32"),
    ("specular_anisotropy", "f32"),
    ("specular_edge_tint", "vec3<f32>"),
    ("t", "vec3<f32>"),
    ("b", "vec3<f32>"),
    ("thin_film_mod", "vec3<f32>"),
];

/// Body of [`evaluate_base_layer`].
pub const BASE_LAYER_BODY: &'static str = "let f0_dielectric = vec3<f32>(fresnel0_from_ior(specular_ior)); \
    let f0_metal = base_color * base_weight; \
    let f0 = mix(f0_dielectric, f0_metal, metalness); \
    let f = fresnel_f82_tint(voh, f0, specular_edge_tint); \
    let alpha = openpbr_anisotropy(specular_roughness, specular_anisotropy); \
    let alpha_u = alpha.x; \
    let alpha_v = alpha.y; \
    let d = ggx_ndf_aniso(noh, h, t, b, alpha_u, alpha_v); \
    let g = smith_ggx_aniso(nov, nol, v, l, t, b, alpha_u, alpha_v); \
    let spec_brdf = d * g * f / max(4.0 * nov * nol, EPS); \
    let diffuse_color = base_color * (1.0 - metalness); \
    let diff_roughness = max(diffuse_roughness, specular_roughness); \
    let diff_alpha = diff_roughness * diff_roughness; \
    let cos_phi = max(dot(normalize(v - n * nov), normalize(l - n * nol)), 0.0); \
    let diff_brdf = oren_nayar_brdf(nov, nol, cos_phi, diff_alpha); \
    let ks = f * specular_weight; \
    let kd = (vec3<f32>(1.0) - luminance(ks)) * (1.0 - metalness); \
    let base_bsdf = kd * diff_brdf * diffuse_color + ks * spec_brdf; \
    return base_bsdf * base_weight * thin_film_mod;";

/// Base layer: dielectric and metallic mix.
pub fn evaluate_base_layer() -> (out: String)
    ensures
        out@ == source::function_text("evaluate_base_layer"@, BASE_LAYER_PARAMS@, COLOR@, BASE_LAYER_BODY@),
{
    source::function_source("evaluate_base_layer", &BASE_LAYER_PARAMS, COLOR, BASE_LAYER_BODY)
}

/// Parameters of [`evaluate_coat_layer`].
pub const COAT_LAYER_PARAMS: [Typed; 23] = [
    ("n", "vec3<f32>"),
    ("v", "vec3<f32>"),
    ("l", "vec3<f32>"),
    ("h", "vec3<f32>"),
    ("nov", "f32"),
    ("nol", "f32"),
    ("noh", "f32"),
    ("voh", "f32"),
    ("mat", "OpenPBRMaterial"),
    ("coat_weight", "f32"),
    ("coat_roughness", "f32"),
    ("coat_anisotropy", "f32"),
    ("coat_dark", "f32"),
    ("coat_ior", "f32"),
    ("coat_color", "vec3<f32>"),
    ("base_metalness", "f32"),
    ("base_color", "vec3<f32>"),
    ("base_weight", "f32"),
    ("specular_weight", "f32"),
    ("subsurface_weight", "f32"),
    ("subsurface_color", "vec3<f32>"),
    ("t", "vec3<f32>"),
    ("b", "vec3<f32>"),
];

/// Body of [`evaluate_coat_layer`].
pub const COAT_LAYER_BODY: &'static str = "if (coat_weight <= 0.0) { return vec3<f32>(0.0); } \
    let coat_f0 = vec3<f32>(fresnel0_from_ior(coat_ior)); \
    let coat_f = fresnel_schlick_vec(voh, coat_f0); \
    let coat_alpha = openpbr_anisotropy(coat_roughness, coat_anisotropy); \
    let coat_alpha_u = coat_alpha.x; \
    let coat_alpha_v = coat_alpha.y; \
    let coat_d = ggx_ndf_aniso(noh, h, t, b, coat_alpha_u, coat_alpha_v); \
    let coat_g = smith_ggx_aniso(nov, nol, v, l, t, b, coat_alpha_u, coat_alpha_v); \
    let coat_brdf = coat_d * coat_g * coat_f / max(4.0 * nov * nol, EPS); \
    let mix_factor = coat_weight * coat_dark; \
    let base_darkening = coat_base_darkening(coat_ior, base_metalness, base_color, base_weight, specular_weight, subsurface_weight, subsurface_color); \
    let darkening = coat_blend_darkened(base_darkening, mix_factor); \
    let coat_albedo_approx = coat_color * coat_weight * luminance(coat_f0); \
    return coat_color * coat_brdf * coat_weight + darkening * coat_albedo_approx;";

/// Coat layer, which darkens the base below it.
pub fn evaluate_coat_layer() -> (out: String)
    ensures
        out@ == source::function_text("evaluate_coat_layer"@, COAT_LAYER_PARAMS@, COLOR@, COAT_LAYER_BODY@),
{
    source::function_source("evaluate_coat_layer", &COAT_LAYER_PARAMS, COLOR, COAT_LAYER_BODY)
}

/// Parameters of [`evaluate_fuzz_layer`].
pub const FUZZ_LAYER_PARAMS: [Typed; 11] = [
    ("n", "vec3<f32>"),
    ("v", "vec3<f32>"),
    ("l", "vec3<f32>"),
    ("h", "vec3<f32>"),
    ("nov", "f32"),
    ("nol", "f32"),
    ("noh", "f32"),
    ("voh", "f32"),
    ("fuzz_weight", "f32"),
    ("fuzz_roughness", "f32"),
    ("fuzz_color", "vec3<f32>"),
];

/// Body of [`evaluate_fuzz_layer`].
pub const FUZZ_LAYER_BODY: &'static str = "if (fuzz_weight <= 0.0) { return vec3<f32>(0.0); } \
    let sheen = sheen_brdf(nov, nol, noh, voh, fuzz_roughness); \
    return fuzz_color * sheen * fuzz_weight;";

/// Fuzz layer.
pub fn evaluate_fuzz_layer() -> (out: String)
    ensures
        out@ == source::function_text("evaluate_fuzz_layer"@, FUZZ_LAYER_PARAMS@, COLOR@, FUZZ_LAYER_BODY@),
{
    source::function_source("evaluate_fuzz_layer", &FUZZ_LAYER_PARAMS, COLOR, FUZZ_LAYER_BODY)
}

/// Parameters of [`evaluate_transmission_layer`].
pub const TRANSMISSION_LAYER_PARAMS: [Typed; 20] = [
    ("n", "vec3<f32>"),
    ("v", "vec3<f32>"),
    ("l", "vec3<f32>"),
    ("h", "vec3<f32>"),
    ("nov", "f32"),
    ("nol", "f32"),
    ("noh", "f32"),
    ("voh", "f32"),
    ("mat", "OpenPBRMaterial"),
    ("transmission_weight", "f32"),
    ("transmission_depth", "f32"),
    ("transmission_dispersion_scale", "f32"),
    ("transmission_dispersion_abbe", "f32"),
    ("transmission_color", "vec3<f32>"),
    ("transmission_scatter", "vec3<f32>"),
    ("transmission_scatter_anisotropy", "f32"),
    ("specular_ior", "f32"),
    ("specular_roughness", "f32"),
    ("specular_anisotropy", "f32"),
    ("thin_walled", "f32"),
];

/// Body of [`evaluate_transmission_layer`].
pub const TRANSMISSION_LAYER_BODY: &'static str = "if (transmission_weight <= 0.0) { return vec3<f32>(0.0); } \
    let ior_out = 1.0; \
    let ior_in = specular_ior; \
    let eta = ior_in / ior_out; \
    let alpha = openpbr_anisotropy(specular_roughness, specular_anisotropy); \
    let extinction = transmission_color_to_extinction(transmission_color, transmission_depth); \
    let distance = transmission_depth; \
    let btdf = transmission_btdf(nov, nol, voh, ior_in, ior_out, alpha.x, extinction, distance); \
    return transmission_color * btdf * transmission_weight;";

/// Transmission layer with extinction along the depth.
pub fn evaluate_transmission_layer() -> (out: String)
    ensures
        out@ == source::function_text("evaluate_transmission_layer"@, TRANSMISSION_LAYER_PARAMS@, COLOR@, TRANSMISSION_LAYER_BODY@),
{
    source::function_source("evaluate_transmission_layer", &TRANSMISSION_LAYER_PARAMS, COLOR, TRANSMISSION_LAYER_BODY)
}

/// Parameters of [`evaluate_subsurface_layer`].
pub const SUBSURFACE_LAYER_PARAMS: [Typed; 12] = [
    ("n", "vec3<f32>"),
    ("v", "vec3<f32>"),
    ("l", "vec3<f32>"),
    ("nov", "f32"),
    ("nol", "f32"),
    ("subsurface_weight", "f32"),
    ("subsurface_radius", "f32"),
    ("subsurface_radius_scale_r", "f32"),
    ("subsurface_radius_scale_g", "f32"),
    ("subsurface_radius_scale_b", "f32"),
    ("subsurface_scatter_anisotropy", "f32"),
    ("subsurface_color", "vec3<f32>"),
];

/// Body of [`evaluate_subsurface_layer`].
pub const SUBSURFACE_LAYER_BODY: &'static str = "if (subsurface_weight <= 0.0) { return vec3<f32>(0.0); } \
    let radius = vec3<f32>(subsurface_radius * subsurface_radius_scale_r, subsurface_radius * subsurface_radius_scale_g, subsurface_radius * subsurface_radius_scale_b); \
    let v_proj = v - n * nov; \
    let l_proj = l - n * nol; \
    let distance = length(v_proj - l_proj); \
    let ss_brdf = subsurface_brdf(nov, nol, distance, radius, subsurface_scatter_anisotropy); \
    return subsurface_color * ss_brdf * subsurface_weight;";

/// Subsurface layer with falloff over the projected distance.
pub fn evaluate_subsurface_layer() -> (out: String)
    ensures
        out@ == source::function_text("evaluate_subsurface_layer"@, SUBSURFACE_LAYER_PARAMS@, COLOR@, SUBSURFACE_LAYER_BODY@),
{
    source::function_source("evaluate_subsurface_layer", &SUBSURFACE_LAYER_PARAMS, COLOR, SUBSURFACE_LAYER_BODY)
}

/// Parameters of [`evaluate_emission`].
pub const EMISSION_PARAMS: [Typed; 5] = [
    ("emission_luminance", "f32"),
    ("emission_color", "vec3<f32>"),
    ("coat_weight", "f32"),
    ("coat_color", "vec3<f32>"),
    ("nov", "f32"),
];

/// Body of [`evaluate_emission`].
pub const EMISSION_BODY: &'static str = "if (emission_luminance <= 0.0) { return vec3<f32>(0.0); } \
    let base_emission = emission_color * emission_luminance * INV_PI; \
    let coat_emission = coat_color * base_emission * (pow(1.0 - nov, 5.0) * coat_weight + (1.0 - coat_weight)); \
    return mix(base_emission, coat_emission, coat_weight);";

/// Emission seen through the coat.
pub fn evaluate_emission() -> (out: String)
    ensures
        out@ == source::function_text("evaluate_emission"@, EMISSION_PARAMS@, COLOR@, EMISSION_BODY@),
{
    source::function_source("evaluate_emission", &EMISSION_PARAMS, COLOR, EMISSION_BODY)
}

/// Parameters of [`transmission_btdf`].
pub const TRANSMISSION_BTDF_PARAMS: [Typed; 8] = [
    ("nov", "f32"),
    ("nol", "f32"),
    ("voh", "f32"),
    ("ior_in", "f32"),
    ("ior_out", "f32"),
    ("alpha", "f32"),
    ("extinction", "vec3<f32>"),
    ("distance", "f32"),
];

/// Body of [`transmission_btdf`].
pub const TRANSMISSION_BTDF_BODY: &'static str = "let eta = ior_in / ior_out; \
    let cos_theta_t = sqrt(max(1.0 - eta * eta * (1.0 - nov * nov), 0.0)); \
    let cos_theta_i = nov; \
    let f = fresnel_schlick(max(cos_theta_i, EPS), fresnel0_from_ior(ior_in)); \
    let t = 1.0 - f; \
    let d = ggx_ndf(voh, alpha); \
    let g = smith_ggx_correlated(nov, nol, alpha); \
    let extinction_factor = exp(-extinction * distance); \
    return vec3<f32>(d * g * t / max(4.0 * nov * nol, EPS)) * extinction_factor;";

/// Transmission through rough facets with extinction.
pub fn transmission_btdf() -> (out: String)
    ensures
        out@ == source::function_text("transmission_btdf"@, TRANSMISSION_BTDF_PARAMS@, COLOR@, TRANSMISSION_BTDF_BODY@),
{
    source::function_source("transmission_btdf", &TRANSMISSION_BTDF_PARAMS, COLOR, TRANSMISSION_BTDF_BODY)
}

/// Parameters of [`octahedral_decode`].
pub const OCTAHEDRAL_DECODE_PARAMS: [Typed; 1] = [
    ("p", "vec2<f32>"),
];

/// Body of [`octahedral_decode`].
pub const OCTAHEDRAL_DECODE_BODY: &'static str = "var n = vec3<f32>(p.x, p.y, 1.0 - abs(p.x) - abs(p.y)); \
    let t = max(-n.z, 0.0); \
    let offset = select(-n.yx, n.yx, n.xy >= vec2<f32>(0.0)) * t; \
    n.x = n.x + offset.x; \
    n.y = n.y + offset.y; \
    return normalize(n);";

/// Unpacks a normal of the g-buffer.
pub fn octahedral_decode() -> (out: String)
    ensures
        out@ == source::function_text("octahedral_decode"@, OCTAHEDRAL_DECODE_PARAMS@, COLOR@, OCTAHEDRAL_DECODE_BODY@),
{
    source::function_source("octahedral_decode", &OCTAHEDRAL_DECODE_PARAMS, COLOR, OCTAHEDRAL_DECODE_BODY)
}

/// Parameters of [`reconstruct_world_pos`].
pub const RECONSTRUCT_WORLD_POS_PARAMS: [Typed; 3] = [
    ("uv", "vec2<f32>"),
    ("depth", "f32"),
    ("camera", "Camera"),
];

/// Body of [`reconstruct_world_pos`].
pub const RECONSTRUCT_WORLD_POS_BODY: &'static str = "let ndc = vec3<f32>(uv * 2.0 - 1.0, depth * 2.0 - 1.0); \
    let clip = vec4<f32>(ndc, 1.0); \
    let view = camera.inv_view_proj * clip; \
    return view.xyz / view.w;";

/// World position from depth.
pub fn reconstruct_world_pos() -> (out: String)
    ensures
        out@ == source::function_text("reconstruct_world_pos"@, RECONSTRUCT_WORLD_POS_PARAMS@, COLOR@, RECONSTRUCT_WORLD_POS_BODY@),
{
    source::function_source("reconstruct_world_pos", &RECONSTRUCT_WORLD_POS_PARAMS, COLOR, RECONSTRUCT_WORLD_POS_BODY)
}

/// Sources of the shared evaluators.
pub open spec fn shared_helpers() -> Seq<Seq<char>> {
    seq![
        source::function_text("evaluate_base_layer"@, BASE_LAYER_PARAMS@, COLOR@, BASE_LAYER_BODY@),
        source::function_text("evaluate_coat_layer"@, COAT_LAYER_PARAMS@, COLOR@, COAT_LAYER_BODY@),
        source::function_text("evaluate_fuzz_layer"@, FUZZ_LAYER_PARAMS@, COLOR@, FUZZ_LAYER_BODY@),
        source::function_text(
            "evaluate_transmission_layer"@,
            TRANSMISSION_LAYER_PARAMS@,
            COLOR@,
            TRANSMISSION_LAYER_BODY@,
        ),
        source::function_text(
            "evaluate_subsurface_layer"@,
            SUBSURFACE_LAYER_PARAMS@,
            COLOR@,
            SUBSURFACE_LAYER_BODY@,
        ),
        source::function_text("evaluate_emission"@, EMISSION_PARAMS@, COLOR@, EMISSION_BODY@),
        source::function_text(
            "transmission_btdf"@,
            TRANSMISSION_BTDF_PARAMS@,
            COLOR@,
            TRANSMISSION_BTDF_BODY@,
        ),
    ]
}

/// The shared evaluators, separated by line feeds.
pub fn wgsl_shared_helpers() -> (out: String)
    ensures
        out@ == text::joined(shared_helpers(), "\n"@),
{
    let mut parts: Vec<String> = Vec::new();
    parts.push(evaluate_base_layer());
    parts.push(evaluate_coat_layer());
    parts.push(evaluate_fuzz_layer());
    parts.push(evaluate_transmission_layer());
    parts.push(evaluate_subsurface_layer());
    parts.push(evaluate_emission());
    parts.push(transmission_btdf());
    assert(text::texts(parts@) == shared_helpers());
    text::join(&parts, "\n")
}

/// Sources that only deferred lighting needs: reading the g-buffer back.
pub open spec fn lighting_decode() -> Seq<Seq<char>> {
    seq![
        source::function_text(
            "octahedral_decode"@,
            OCTAHEDRAL_DECODE_PARAMS@,
            COLOR@,
            OCTAHEDRAL_DECODE_BODY@,
        ),
        source::function_text(
            "reconstruct_world_pos"@,
            RECONSTRUCT_WORLD_POS_PARAMS@,
            COLOR@,
            RECONSTRUCT_WORLD_POS_BODY@,
        ),
    ]
}

/// The functions that read the g-buffer back, separated by line feeds.
pub fn wgsl_lighting_decode() -> (out: String)
    ensures
        out@ == text::joined(lighting_decode(), "\n"@),
{
    let mut parts: Vec<String> = Vec::new();
    parts.push(octahedral_decode());
    parts.push(reconstruct_world_pos());
    assert(text::texts(parts@) == lighting_decode());
    text::join(&parts, "\n")
}

} // verus!
