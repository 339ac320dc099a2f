//! Shading kernels shared by the passes, as shader functions.
use vstd::prelude::*;
#[allow(unused_imports)]
use vstd::string::*;

use crate::text;

verus! {

/// Relative luminance of a linear color.
pub const LUMINANCE: &'static str = "fn luminance(c: vec3<f32>) -> f32 {
    return dot(c, vec3<f32>(0.2126, 0.7152, 0.0722));
}
";

/// Filmic tone curve.
pub const ACES_TONEMAP: &'static str = "fn aces_tonemap(color: vec3<f32>) -> vec3<f32> {
    let a = 2.51;
    let b = 0.03;
    let c = 2.43;
    let d = 0.59;
    let e = 0.14;
    return color * (a * color + b) / (color * (c * color + d) + e);
}
";

/// Reflectance at normal incidence from the index of refraction.
pub const FRESNEL0_FROM_IOR: &'static str = "fn fresnel0_from_ior(ior: f32) -> f32 {
    let f = (ior - 1.0) / (ior + 1.0);
    return f * f;
}
";

/// Schlick's approximation of the Fresnel term.
pub const FRESNEL_SCHLICK: &'static str = "fn fresnel_schlick(cos_theta: f32, f0: f32) -> f32 {
    return f0 + (1.0 - f0) * pow(1.0 - cos_theta, 5.0);
}
";

/// Schlick's approximation per color channel.
pub const FRESNEL_SCHLICK_VEC: &'static str = "fn fresnel_schlick_vec(cos_theta: f32, f0: vec3<f32>) -> vec3<f32> {
    return f0 + (vec3<f32>(1.0) - f0) * pow(1.0 - cos_theta, 5.0);
}
";

/// Fresnel term of metals with an edge tint.
pub const FRESNEL_F82_TINT: &'static str = "fn fresnel_f82_tint(cos_theta: f32, f0: vec3<f32>, f82_tint: vec3<f32>) -> vec3<f32> {
    let mu_bar = 1.0 / 7.0;
    let schlick_at_mu_bar = f0 + (vec3<f32>(1.0) - f0) * pow(1.0 - mu_bar, 5.0);
    let f82 = f82_tint * schlick_at_mu_bar;
    let numerator = cos_theta * pow(1.0 - cos_theta, 6.0);
    let denominator = mu_bar * pow(1.0 - mu_bar, 6.0);
    let scale = numerator / denominator;
    let f_schlick = f0 + (vec3<f32>(1.0) - f0) * pow(1.0 - cos_theta, 5.0);
    let f82_correction = f_schlick - vec3<f32>(scale) * (schlick_at_mu_bar - f82);
    return max(f82_correction, vec3<f32>(0.0));
}
";

/// Isotropic distribution of normals.
pub const GGX_NDF: &'static str = "fn ggx_ndf(NoH: f32, alpha: f32) -> f32 {
    let a2 = alpha * alpha;
    let denom = NoH * NoH * (a2 - 1.0) + 1.0;
    return a2 / (PI * denom * denom);
}
";

/// Anisotropic distribution of normals.
pub const GGX_NDF_ANISO: &'static str = "fn ggx_ndf_aniso(_NoH: f32, H: vec3<f32>, T: vec3<f32>, B: vec3<f32>, alpha_u: f32, alpha_v: f32) -> f32 {
    let Hu = dot(H, T);
    let Hv = dot(H, B);
    let a2u = alpha_u * alpha_u;
    let a2v = alpha_v * alpha_v;
    let denom = 1.0 + (Hu * Hu) / a2u + (Hv * Hv) / a2v;
    return 1.0 / (PI * a2u * a2v * denom * denom);
}
";

/// Roughness along the tangent and the bitangent.
pub const OPENPBR_ANISOTROPY: &'static str = "fn openpbr_anisotropy(roughness: f32, anisotropy: f32) -> vec2<f32> {
    let r2 = roughness * roughness;
    let aniso_inv = 1.0 - anisotropy;
    let aniso_inv_sq = aniso_inv * aniso_inv;
    let denom = aniso_inv_sq + 1.0;
    let fraction = 2.0 / denom;
    let sqrt_frac = sqrt(fraction);
    let alpha_u = r2 * sqrt_frac;
    let alpha_v = aniso_inv * alpha_u;
    return vec2<f32>(alpha_u, alpha_v);
}
";

/// Isotropic masking and shadowing.
pub const SMITH_GGX_CORRELATED: &'static str = "fn smith_ggx_correlated(NoV: f32, NoL: f32, alpha: f32) -> f32 {
    let a2 = alpha * alpha;
    let ggxv = NoV * sqrt(max(NoL * NoL * (1.0 - a2) + a2, EPS));
    let ggxl = NoL * sqrt(max(NoV * NoV * (1.0 - a2) + a2, EPS));
    return 0.5 / max(ggxv + ggxl, EPS);
}
";

/// Anisotropic masking and shadowing.
pub const SMITH_GGX_ANISO: &'static str = "fn smith_ggx_aniso(NoV: f32, NoL: f32, V: vec3<f32>, L: vec3<f32>, T: vec3<f32>, B: vec3<f32>, alpha_u: f32, alpha_v: f32) -> f32 {
    let Vu = dot(V, T);
    let Vv = dot(V, B);
    let Lu = dot(L, T);
    let Lv = dot(L, B);
    let a2u = alpha_u * alpha_u;
    let a2v = alpha_v * alpha_v;
    let ggxv = NoV * sqrt(max(Lu * Lu * a2u + Lv * Lv * a2v + NoL * NoL, EPS));
    let ggxl = NoL * sqrt(max(Vu * Vu * a2u + Vv * Vv * a2v + NoV * NoV, EPS));
    return 0.5 / max(ggxv + ggxl, EPS);
}
";

/// Rough diffuse reflection.
pub const OREN_NAYAR_BRDF: &'static str = "fn oren_nayar_brdf(NoV: f32, NoL: f32, cos_phi: f32, alpha: f32) -> f32 {
    let sigma = max(alpha, EPS);
    let sigma2 = sigma * sigma;
    let A = 1.0 - 0.5 * sigma2 / (sigma2 + 0.57);
    let B = 0.45 * sigma2 / (sigma2 + 0.09);
    let theta_v = acos(max(NoV, 0.0));
    let theta_l = acos(max(NoL, 0.0));
    let alpha_max = max(theta_v, theta_l);
    let beta_min = min(theta_v, theta_l);
    let tan_beta = tan(beta_min);
    return (A + B * cos_phi * sin(alpha_max) * tan_beta) * INV_PI;
}
";

/// Sheen of the fuzz layer.
pub const SHEEN_BRDF: &'static str = "fn sheen_brdf(NoV: f32, NoL: f32, NoH: f32, VoH: f32, roughness: f32) -> f32 {
    let alpha = roughness * roughness;
    let D = alpha / (PI * pow(NoH * NoH * (alpha - 1.0) + 1.0, 2.0));
    let G = 1.0 / (1.0 + alpha * (1.0 / NoV + 1.0 / NoL - 2.0));
    let F = VoH;
    return D * G * F / max(4.0 * NoV * NoL, EPS);
}
";

/// Extinction that gives a color at a depth.
pub const TRANSMISSION_COLOR_TO_EXTINCTION: &'static str = "fn transmission_color_to_extinction(transmission_color: vec3<f32>, transmission_depth: f32) -> vec3<f32> {
    if (transmission_depth <= 0.0) {
        return vec3<f32>(0.0);
    }
    let c = max(transmission_color, vec3<f32>(1e-6));
    return -log(c) / transmission_depth;
}
";

/// Falloff of scattered light.
pub const SUBSURFACE_BRDF: &'static str = "fn subsurface_brdf(NoV: f32, NoL: f32, distance: f32, radius: vec3<f32>, anisotropy: f32) -> vec3<f32> {
    let sigma_tr = sqrt(3.0) / radius;
    let profile = exp(-distance * sigma_tr) / max(distance, EPS);
    let phase = 1.0 + anisotropy * cos(distance);
    return profile * phase * INV_PI;
}
";

/// Decodes sRGB channels to linear light.
pub const SRGB_TO_LINEAR: &'static str = "fn srgb_to_linear(c: vec3<f32>) -> vec3<f32> {
    let cutoff = 0.04045;
    let low = c / 12.92;
    let high = pow((c + 0.055) / 1.055, vec3<f32>(2.4));
    return vec3<f32>(select(high.x, low.x, c.x <= cutoff), select(high.y, low.y, c.y <= cutoff), select(high.z, low.z, c.z <= cutoff));
}
";

/// Darkening of the base below a full coat.
pub const COAT_BASE_DARKENING: &'static str = "fn coat_base_darkening(coat_ior: f32, base_metalness: f32, base_color: vec3<f32>, base_weight: f32, specular_weight: f32, subsurface_weight: f32, subsurface_color: vec3<f32>) -> vec3<f32> {
    let coat_f0 = pow((coat_ior - 1.0) / (coat_ior + 1.0), 2.0);
    let one_minus_coat_f0 = 1.0 - coat_f0;
    let coat_ior_sq = coat_ior * coat_ior;
    let Kcoat = 1.0 - one_minus_coat_f0 / coat_ior_sq;
    let Emetal = base_color * base_weight * specular_weight;
    let Edielectric = mix(subsurface_color, base_color, subsurface_weight);
    let Ebase = mix(Emetal, Edielectric, base_metalness);
    let Ebase_Kcoat = Ebase * Kcoat;
    let one_minus_Kcoat = 1.0 - Kcoat;
    let one_minus_Ebase_Kcoat = vec3<f32>(1.0) - Ebase_Kcoat;
    return vec3<f32>(one_minus_Kcoat) / max(one_minus_Ebase_Kcoat, vec3<f32>(1e-6));
}
";

/// Darkening of the base by a partial coat.
pub const COAT_BLEND_DARKENED: &'static str = "fn coat_blend_darkened(base_darkening: vec3<f32>, mix_factor: f32) -> vec3<f32> {
    return mix(vec3<f32>(1.0), base_darkening, mix_factor);
}
";

/// Darkening of the base below a coat, in one step.
pub const COAT_DARKENING: &'static str = "fn coat_darkening(coat_ior: f32, coat_weight: f32, coat_darkening: f32, base_metalness: f32, base_color: vec3<f32>, base_weight: f32, specular_weight: f32, subsurface_weight: f32, subsurface_color: vec3<f32>) -> vec3<f32> {
    let coat_f0 = pow((coat_ior - 1.0) / (coat_ior + 1.0), 2.0);
    let one_minus_coat_f0 = 1.0 - coat_f0;
    let coat_ior_sq = coat_ior * coat_ior;
    let Kcoat = 1.0 - one_minus_coat_f0 / coat_ior_sq;
    let Emetal = base_color * base_weight * specular_weight;
    let Edielectric = mix(subsurface_color, base_color, subsurface_weight);
    let Ebase = mix(Emetal, Edielectric, base_metalness);
    let Ebase_Kcoat = Ebase * Kcoat;
    let one_minus_Kcoat = 1.0 - Kcoat;
    let one_minus_Ebase_Kcoat = vec3<f32>(1.0) - Ebase_Kcoat;
    let base_darkening = vec3<f32>(one_minus_Kcoat) / max(one_minus_Ebase_Kcoat, vec3<f32>(1e-6));
    let mix_factor = coat_weight * coat_darkening;
    return mix(vec3<f32>(1.0), base_darkening, mix_factor);
}
";

/// Interference of a thin film per color channel.
pub const THIN_FILM_MODULATION: &'static str = "fn thin_film_modulation(cos_theta: f32, film_ior: f32, thickness_nm: f32, ior_outside: f32) -> vec3<f32> {
    let sin_theta_film = ior_outside * sqrt(max(1.0 - cos_theta * cos_theta, 0.0)) / film_ior;
    let cos_theta_film = sqrt(max(1.0 - sin_theta_film * sin_theta_film, 0.0));
    let lambda = vec3<f32>(650.0, 550.0, 450.0);
    let phase = 4.0 * PI * film_ior * thickness_nm * cos_theta_film / lambda;
    let r0 = pow((film_ior - ior_outside) / (film_ior + ior_outside), 2.0);
    let modulation = vec3<f32>(1.0) + vec3<f32>(2.0 * r0) * vec3<f32>(cos(phase.x), cos(phase.y), cos(phase.z)) / vec3<f32>(1.0 - r0 * r0);
    return modulation;
}
";

/// Packs a unit normal into two numbers.
pub const OCTAHEDRAL_ENCODE: &'static str = "fn octahedral_encode(n: vec3<f32>) -> vec2<f32> {
    let p = n.xy / (abs(n.x) + abs(n.y) + abs(n.z));
    let q = vec2<f32>(p.x, p.y);
    if (n.z < 0.0) {
        return vec2<f32>(1.0 - abs(q.y), 1.0 - abs(q.x)) * vec2<f32>(select(-1.0, 1.0, q.x >= 0.0), select(-1.0, 1.0, q.y >= 0.0));
    } else {
        return q;
    }
}
";

/// Kernels of deferred lighting, in the order in which a module holds them.
pub const LIGHTING_KERNELS: [&'static str; 18] = [
    LUMINANCE,
    ACES_TONEMAP,
    FRESNEL0_FROM_IOR,
    FRESNEL_SCHLICK,
    FRESNEL_SCHLICK_VEC,
    FRESNEL_F82_TINT,
    GGX_NDF,
    GGX_NDF_ANISO,
    OPENPBR_ANISOTROPY,
    SMITH_GGX_CORRELATED,
    SMITH_GGX_ANISO,
    OREN_NAYAR_BRDF,
    COAT_BASE_DARKENING,
    COAT_BLEND_DARKENED,
    THIN_FILM_MODULATION,
    SHEEN_BRDF,
    TRANSMISSION_COLOR_TO_EXTINCTION,
    SUBSURFACE_BRDF,
];

/// Kernels of forward shading, in the order in which a module holds them.
pub const PBR_KERNELS: [&'static str; 19] = [
    LUMINANCE,
    ACES_TONEMAP,
    FRESNEL0_FROM_IOR,
    FRESNEL_SCHLICK,
    FRESNEL_SCHLICK_VEC,
    FRESNEL_F82_TINT,
    GGX_NDF,
    GGX_NDF_ANISO,
    OPENPBR_ANISOTROPY,
    SMITH_GGX_CORRELATED,
    SMITH_GGX_ANISO,
    OREN_NAYAR_BRDF,
    COAT_BASE_DARKENING,
    COAT_BLEND_DARKENED,
    THIN_FILM_MODULATION,
    SHEEN_BRDF,
    TRANSMISSION_COLOR_TO_EXTINCTION,
    SUBSURFACE_BRDF,
    SRGB_TO_LINEAR,
];

/// The characters of every kernel.
pub open spec fn kernel_texts(kernels: Seq<&'static str>) -> Seq<Seq<char>> {
    kernels.map_values(|k: &'static str| k@)
}

/// The kernels as owned texts.
pub fn sources(kernels: &[&'static str]) -> (out: Vec<String>)
    ensures
        text::texts(out@) == kernel_texts(kernels@),
{
    let mut out: Vec<String> = Vec::new();
    for i in 0..kernels.len()
        invariant
            out@.len() == i,
            forall|k: int| 0 <= k < i ==> (#[trigger] out@[k])@ == kernels@[k]@,
    {
        out.push(kernels[i].to_owned());
    }
    assert(text::texts(out@) == kernel_texts(kernels@));
    out
}

} // verus!
