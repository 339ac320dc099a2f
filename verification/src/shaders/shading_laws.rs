//! Laws of the shaded fragment: which layers the light loop sums, and what it reads.
use vstd::prelude::*;
#[allow(unused_imports)]
use vstd::string::*;

use crate::shaders::buffer_layouts;
use crate::shaders::declaration_laws;
use crate::shaders::declaration_laws::has;
use crate::shaders::gbuffer_generated;
use crate::shaders::helpers;
use crate::shaders::lighting_generated;
use crate::shaders::openpbr;
use crate::shaders::pbr_generated;
use crate::shaders::shading;
use crate::shaders::shading::MaterialLocal;
use crate::shaders::source;
use crate::shaders::source::Typed;
use crate::text;

verus! {

/// A layer of the surface: the local of its term, its evaluator, the arguments of the call and the
/// parameters of the evaluator.
pub struct Layer {
    pub local: Seq<char>,
    pub evaluator: Seq<char>,
    pub args: Seq<Typed>,
    pub params: Seq<Typed>,
}

/// The layers that the evaluators make.
pub open spec fn layers() -> Seq<Layer> {
    seq![
        Layer {
            local: "base_bsdf"@,
            evaluator: "evaluate_base_layer"@,
            args: helpers::BASE_LAYER_PARAMS@,
            params: helpers::BASE_LAYER_PARAMS@,
        },
        Layer {
            local: "coat_bsdf"@,
            evaluator: "evaluate_coat_layer"@,
            args: shading::COAT_LAYER_ARGS@,
            params: helpers::COAT_LAYER_PARAMS@,
        },
        Layer {
            local: "fuzz_bsdf"@,
            evaluator: "evaluate_fuzz_layer"@,
            args: helpers::FUZZ_LAYER_PARAMS@,
            params: helpers::FUZZ_LAYER_PARAMS@,
        },
        Layer {
            local: "trans_bsdf"@,
            evaluator: "evaluate_transmission_layer"@,
            args: helpers::TRANSMISSION_LAYER_PARAMS@,
            params: helpers::TRANSMISSION_LAYER_PARAMS@,
        },
        Layer {
            local: "ss_bsdf"@,
            evaluator: "evaluate_subsurface_layer"@,
            args: helpers::SUBSURFACE_LAYER_PARAMS@,
            params: helpers::SUBSURFACE_LAYER_PARAMS@,
        },
    ]
}

/// The needle stands in the text at one place alone.
pub open spec fn once(hay: Seq<char>, needle: Seq<char>) -> bool {
    &&& has(hay, needle)
    &&& forall|a: int, b: int| #[trigger]
        text::occurs_at(hay, needle, a) && #[trigger] text::occurs_at(hay, needle, b) ==> a == b
}

/// The light loop of a shaded fragment.
pub open spec fn light_loop() -> Seq<char> {
    shading::LIGHT_LOOP_HEAD@ + shading::layer_calls() + shading::LIGHT_LOOP_TAIL@
}

/// No opening bracket.
spec fn flat(s: Seq<char>) -> bool {
    forall|i: int| 0 <= i < s.len() ==> #[trigger] s[i] != '('
}

/// An opening bracket behind an `r`: what a call of an evaluator looks like.
spec fn call_at(s: Seq<char>, p: int) -> bool {
    0 < p < s.len() && s[p - 1] == 'r' && s[p] == '('
}

spec fn names_flat(args: Seq<Typed>) -> bool {
    forall|i: int| 0 <= i < args.len() ==> flat(#[trigger] args[i].0@)
}

proof fn lemma_flat_concat(a: Seq<char>, b: Seq<char>)
    requires
        flat(a),
        flat(b),
    ensures
        flat(a + b),
{
}

proof fn lemma_args_flat(args: Seq<Typed>)
    requires
        names_flat(args),
    ensures
        flat(source::args_text(args)),
    decreases args.len(),
{
    reveal_strlit(", ");
    if args.len() > 1 {
        assert forall|i: int| 0 <= i < args.drop_last().len() implies flat(
            #[trigger] args.drop_last()[i].0@,
        ) by {
            assert(args.drop_last()[i] == args[i]);
        }
        lemma_args_flat(args.drop_last());
        assert(args.last() == args[args.len() - 1]);
        lemma_flat_concat(source::args_text(args.drop_last()), ", "@);
        lemma_flat_concat(source::args_text(args.drop_last()) + ", "@, args.last().0@);
    } else if args.len() == 1 {
        assert(flat(args[0].0@));
    }
}

/// Where the bracket of a call stands in its statement.
spec fn bracket(local: Seq<char>, callee: Seq<char>) -> int {
    (4 + local.len() + 3 + callee.len()) as int
}

/// A statement has one opening bracket, behind the callee.
proof fn lemma_statement(local: Seq<char>, callee: Seq<char>, args: Seq<Typed>)
    requires
        flat(local),
        flat(callee),
        names_flat(args),
    ensures
        ({
            let s = source::call_text(local, callee, args);
            let p = bracket(local, callee);
            &&& p < s.len() - 3
            &&& s[p] == '('
            &&& forall|i: int| 0 <= i < s.len() && i != p ==> #[trigger] s[i] != '('
            &&& forall|d: int| 1 <= d <= callee.len() ==> #[trigger] s[p - d] == callee[callee.len()
                - d]
            &&& s[s.len() - 1] == ' '
        }),
{
    reveal_strlit("let ");
    reveal_strlit(" = ");
    reveal_strlit("(");
    reveal_strlit("); ");
    lemma_args_flat(args);
    let s = source::call_text(local, callee, args);
    let p = bracket(local, callee);
    let inner = source::args_text(args);
    let front = "let "@ + local + " = "@ + callee;
    assert(front.len() == p);
    assert(s == front + "("@ + inner + "); "@);
    assert(flat(front)) by {
        lemma_flat_concat("let "@, local);
        lemma_flat_concat("let "@ + local, " = "@);
        lemma_flat_concat("let "@ + local + " = "@, callee);
    }
    assert forall|i: int| 0 <= i < s.len() && i != p implies #[trigger] s[i] != '(' by {
        if i < p {
            assert(s[i] == front[i]);
        } else if i < p + 1 + inner.len() {
            assert(s[i] == inner[i - p - 1]);
        } else {
            assert(s[i] == "); "@[i - p - 1 - inner.len()]);
        }
    }
    assert forall|d: int| 1 <= d <= callee.len() implies #[trigger] s[p - d] == callee[callee.len()
        - d] by {
        assert(s[p - d] == front[p - d]);
    }
    assert(s[s.len() - 1] == "); "@[2]);
}

#[verifier::rlimit(60)]
proof fn lemma_names_flat()
    ensures
        forall|m: int| 0 <= m < 5 ==> names_flat(#[trigger] layers()[m].args),
{
    reveal_strlit("n");
    reveal_strlit("v");
    reveal_strlit("l");
    reveal_strlit("h");
    reveal_strlit("t");
    reveal_strlit("b");
    reveal_strlit("nov");
    reveal_strlit("nol");
    reveal_strlit("noh");
    reveal_strlit("voh");
    reveal_strlit("mat");
    reveal_strlit("base_weight");
    reveal_strlit("base_color");
    reveal_strlit("metalness");
    reveal_strlit("diffuse_roughness");
    reveal_strlit("specular_weight");
    reveal_strlit("specular_roughness");
    reveal_strlit("specular_ior");
    reveal_strlit("specular_anisotropy");
    reveal_strlit("specular_edge_tint");
    reveal_strlit("thin_film_mod");
    reveal_strlit("coat_weight");
    reveal_strlit("coat_roughness");
    reveal_strlit("coat_anisotropy");
    reveal_strlit("coat_darkening");
    reveal_strlit("coat_ior");
    reveal_strlit("coat_color");
    reveal_strlit("subsurface_weight");
    reveal_strlit("subsurface_color");
    reveal_strlit("fuzz_weight");
    reveal_strlit("fuzz_roughness");
    reveal_strlit("fuzz_color");
    reveal_strlit("transmission_weight");
    reveal_strlit("transmission_depth");
    reveal_strlit("transmission_dispersion_scale");
    reveal_strlit("transmission_dispersion_abbe");
    reveal_strlit("transmission_color");
    reveal_strlit("transmission_scatter");
    reveal_strlit("transmission_scatter_anisotropy");
    reveal_strlit("thin_walled");
    reveal_strlit("subsurface_radius");
    reveal_strlit("subsurface_radius_scale_r");
    reveal_strlit("subsurface_radius_scale_g");
    reveal_strlit("subsurface_radius_scale_b");
    reveal_strlit("subsurface_scatter_anisotropy");
    assert(names_flat(layers()[0].args));
    assert(names_flat(layers()[1].args));
    assert(names_flat(layers()[2].args));
    assert(names_flat(layers()[3].args));
    assert(names_flat(layers()[4].args));
}

/// No call of an evaluator among the first `n` places.
spec fn clean(s: Seq<char>, n: int) -> bool
    decreases n,
{
    n <= 0 || (!(s[n - 1] == 'r' && s[n] == '(') && clean(s, n - 1))
}

proof fn lemma_clean(s: Seq<char>, n: int, p: int)
    requires
        clean(s, n),
        0 < p <= n,
    ensures
        !(s[p - 1] == 'r' && s[p] == '('),
    decreases n,
{
    if p < n {
        lemma_clean(s, n - 1, p);
    }
}

/// The head of the loop calls no evaluator.
#[verifier::rlimit(60)]
proof fn lemma_head()
    ensures
        forall|p: int| !#[trigger] call_at(shading::LIGHT_LOOP_HEAD@, p),
        shading::LIGHT_LOOP_HEAD@.len() > 0,
        shading::LIGHT_LOOP_HEAD@.last() == ' ',
{
    let s = shading::LIGHT_LOOP_HEAD@;
    reveal_strlit("for (var i: u32 = 0; i < lighting.light_count; i = i + 1) { \
    let l = normalize(lighting.lights[i].direction.xyz); \
    let h = normalize(v + l); \
    let light_color = lighting.lights[i].color.rgb; \
    let intensity = lighting.lights[i].color.w; \
    let radiance = light_color * intensity; \
    let nol = max(dot(n, l), EPS); \
    let noh = max(dot(n, h), EPS); \
    let voh = max(dot(v, h), EPS); \
    if (nol <= EPS) { continue; } ");
    reveal_with_fuel(clean, 61);
    assert(clean(s, 60));
    assert(clean(s, 120));
    assert(clean(s, 180));
    assert(clean(s, 240));
    assert(clean(s, 300));
    assert(clean(s, 360));
    assert(clean(s, s.len() - 1));
    assert forall|p: int| !#[trigger] call_at(s, p) by {
        if 0 < p < s.len() {
            lemma_clean(s, s.len() - 1, p);
        }
    }
}

/// The tail of the loop has no bracket.
proof fn lemma_tail()
    ensures
        flat(shading::LIGHT_LOOP_TAIL@),
{
    reveal_strlit(
        "let layer_bsdf = base_bsdf + coat_bsdf + fuzz_bsdf + trans_bsdf + ss_bsdf; \
    lo = lo + layer_bsdf * radiance * nol; } ",
    );
}

/// The statement of a layer.
pub open spec fn statement(m: int) -> Seq<char> {
    source::call_text(layers()[m].local, layers()[m].evaluator, layers()[m].args)
}

/// The loop up to the statement of layer `m`.
spec fn upto(m: int) -> Seq<char>
    decreases m,
{
    if m <= 0 {
        shading::LIGHT_LOOP_HEAD@
    } else {
        upto(m - 1) + statement(m - 1)
    }
}

/// Where the bracket of layer `m` stands in the loop.
spec fn spot(m: int) -> int {
    upto(m).len() + bracket(layers()[m].local, layers()[m].evaluator)
}

proof fn lemma_layer_names(m: int)
    requires
        0 <= m < 5,
    ensures
        flat(layers()[m].local),
        flat(layers()[m].evaluator),
        layers()[m].evaluator.len() >= 19,
        layers()[m].evaluator.last() == 'r',
        names_flat(layers()[m].args),
        forall|k: int|
            0 <= k < 5 && k != m ==> {
                let a = layers()[m].evaluator;
                let b = #[trigger] layers()[k].evaluator;
                a[a.len() - 7] != b[b.len() - 7] || a[a.len() - 8] != b[b.len() - 8]
            },
{
    lemma_names_flat();
    reveal_strlit("base_bsdf");
    reveal_strlit("coat_bsdf");
    reveal_strlit("fuzz_bsdf");
    reveal_strlit("trans_bsdf");
    reveal_strlit("ss_bsdf");
    reveal_strlit("evaluate_base_layer");
    reveal_strlit("evaluate_coat_layer");
    reveal_strlit("evaluate_fuzz_layer");
    reveal_strlit("evaluate_transmission_layer");
    reveal_strlit("evaluate_subsurface_layer");
    assert(m == 0 || m == 1 || m == 2 || m == 3 || m == 4);
}

proof fn lemma_upto(n: int)
    requires
        0 <= n <= 5,
    ensures
        upto(n).len() > 0,
        upto(n).last() == ' ',
        forall|p: int| #[trigger]
            call_at(upto(n), p) ==> exists|m: int| 0 <= m < n && p == #[trigger] spot(m),
    decreases n,
{
    if n == 0 {
        lemma_head();
    } else {
        let m = n - 1;
        lemma_upto(m);
        lemma_layer_names(m);
        lemma_statement(layers()[m].local, layers()[m].evaluator, layers()[m].args);
        let before = upto(m);
        let added = statement(m);
        let all = upto(n);
        assert(all == before + added);
        assert forall|p: int| #[trigger] call_at(all, p) implies exists|k: int|
            0 <= k < n && p == #[trigger] spot(k) by {
            if p < before.len() {
                assert(call_at(before, p));
            } else {
                assert(all[p] == added[p - before.len()]);
                assert(p == spot(m));
            }
        }
    }
}

/// Characters in front of the bracket of layer `m`, counted from it.
proof fn lemma_in_front(n: int, m: int, d: int)
    requires
        0 <= m < n <= 5,
        1 <= d <= layers()[m].evaluator.len(),
    ensures
        d <= spot(m) < upto(n).len(),
        upto(n)[spot(m)] == '(',
        upto(n)[spot(m) - d] == layers()[m].evaluator[layers()[m].evaluator.len() - d],
    decreases n,
{
    lemma_layer_names(m);
    if m == n - 1 {
        lemma_statement(layers()[m].local, layers()[m].evaluator, layers()[m].args);
        let s = statement(m);
        let p = bracket(layers()[m].local, layers()[m].evaluator);
        assert(upto(n)[spot(m)] == s[p]);
        assert(upto(n)[spot(m) - d] == s[p - d]);
    } else {
        lemma_in_front(n - 1, m, d);
    }
}

proof fn lemma_loop()
    ensures
        light_loop() == upto(5) + shading::LIGHT_LOOP_TAIL@,
{
    assert(upto(0) == shading::LIGHT_LOOP_HEAD@);
    assert(upto(1) == upto(0) + statement(0));
    assert(upto(2) == upto(1) + statement(1));
    assert(upto(3) == upto(2) + statement(2));
    assert(upto(4) == upto(3) + statement(3));
    assert(upto(5) == upto(4) + statement(4));
    assert(shading::layer_calls() == statement(0) + statement(1) + statement(2) + statement(3)
        + statement(4));
    assert(upto(5) =~= shading::LIGHT_LOOP_HEAD@ + shading::layer_calls());
}

proof fn lemma_has_statement(n: int, m: int)
    requires
        0 <= m < n <= 5,
    ensures
        has(upto(n), statement(m)),
    decreases n,
{
    if m == n - 1 {
        declaration_laws::lemma_has_self(statement(m));
        declaration_laws::lemma_has_right(upto(m), statement(m), statement(m));
    } else {
        lemma_has_statement(n - 1, m);
        declaration_laws::lemma_has_left(upto(n - 1), statement(n - 1), statement(m));
    }
}

/// The name of an evaluator with the bracket of its call behind it.
spec fn call_start(m: int) -> Seq<char> {
    layers()[m].evaluator + "("@
}

/// The loop holds the call of an evaluator at one place only.
#[verifier::spinoff_prover]
proof fn lemma_only_call(m: int, a: int)
    requires
        0 <= m < 5,
        text::occurs_at(light_loop(), call_start(m), a),
    ensures
        a == spot(m) - layers()[m].evaluator.len(),
{
    let all = light_loop();
    let head = upto(5);
    let name = layers()[m].evaluator;
    let needle = call_start(m);
    reveal_strlit("(");
    lemma_loop();
    lemma_tail();
    lemma_layer_names(m);
    let p = a + name.len();
    let found = all.subrange(a, a + needle.len());
    assert(found == needle);
    assert(all[p] == found[name.len() as int]);
    assert(all[p - 1] == found[name.len() - 1]);
    assert(p < head.len()) by {
        if p >= head.len() {
            assert(all[p] == shading::LIGHT_LOOP_TAIL@[p - head.len()]);
        }
    }
    assert(all[p] == head[p] && all[p - 1] == head[p - 1]);
    assert(call_at(head, p));
    lemma_upto(5);
    let k = choose|k: int| 0 <= k < 5 && p == #[trigger] spot(k);
    lemma_layer_names(k);
    lemma_in_front(5, k, 7);
    lemma_in_front(5, k, 8);
    assert(all[p - 7] == found[name.len() - 7]);
    assert(all[p - 8] == found[name.len() - 8]);
    assert(all[p - 7] == head[p - 7] && all[p - 8] == head[p - 8]);
    assert(k == m);
}

/// The loop holds the statement of every layer, and with it the call of its evaluator.
#[verifier::spinoff_prover]
proof fn lemma_has_call(m: int)
    requires
        0 <= m < 5,
    ensures
        has(light_loop(), statement(m)),
        has(light_loop(), call_start(m)),
{
    lemma_loop();
    lemma_has_statement(5, m);
    declaration_laws::lemma_has_left(upto(5), shading::LIGHT_LOOP_TAIL@, statement(m));
    lemma_call_start(layers()[m].local, layers()[m].evaluator, layers()[m].args);
    declaration_laws::lemma_has_within(light_loop(), statement(m), call_start(m));
}

proof fn lemma_call_start(local: Seq<char>, callee: Seq<char>, args: Seq<Typed>)
    ensures
        has(source::call_text(local, callee, args), callee + "("@),
{
    let front = "let "@ + local + " = "@;
    let back = source::args_text(args) + "); "@;
    assert(source::call_text(local, callee, args) =~= front + (callee + "("@) + back);
    declaration_laws::lemma_has_between(front, callee + "("@, back);
}

/// Every layer is evaluated in the light loop, once, by its own evaluator, and the local of the
/// same layer takes the result.
pub proof fn every_layer_is_evaluated_once(m: int)
    requires
        0 <= m < layers().len(),
    ensures
        has(light_loop(), statement(m)),
        once(light_loop(), layers()[m].evaluator + "("@),
{
    lemma_has_call(m);
    assert forall|a: int| #[trigger] text::occurs_at(light_loop(), call_start(m), a) implies a
        == spot(m) - layers()[m].evaluator.len() by {
        lemma_only_call(m, a);
    }
}

/// A call passes to its evaluator what the evaluator takes: as many values as it has parameters,
/// each of the parameter's type and under the parameter's name, but for two that the fragment
/// names otherwise.
pub proof fn calls_pass_what_the_evaluators_take(m: int, i: int)
    requires
        0 <= m < layers().len(),
        0 <= i < layers()[m].params.len(),
    ensures
        layers()[m].args.len() == layers()[m].params.len(),
        layers()[m].args[i].1 == layers()[m].params[i].1,
        layers()[m].args[i].0 == if layers()[m].params[i].0 == "coat_dark" {
            "coat_darkening"
        } else if layers()[m].params[i].0 == "base_metalness" {
            "metalness"
        } else {
            layers()[m].params[i].0
        },
{
    assert(m == 0 || m == 1 || m == 2 || m == 3 || m == 4);
}

/// What a layer adds to the sum.
pub open spec fn term(m: int) -> Seq<char> {
    layers()[m].local
}

/// The light loop ends with the sum of the terms of all layers, each once, weighted by the light
/// and the angle under which it falls in.
pub proof fn the_loop_sums_every_layer()
    ensures
        shading::LIGHT_LOOP_TAIL@ == "let layer_bsdf = "@ + text::joined(
            seq![term(0), term(1), term(2), term(3), term(4)],
            " + "@,
        ) + "; lo = lo + layer_bsdf * radiance * nol; } "@,
{
    reveal_strlit(
        "let layer_bsdf = base_bsdf + coat_bsdf + fuzz_bsdf + trans_bsdf + ss_bsdf; \
    lo = lo + layer_bsdf * radiance * nol; } ",
    );
    reveal_strlit("let layer_bsdf = ");
    reveal_strlit(" + ");
    reveal_strlit("; lo = lo + layer_bsdf * radiance * nol; } ");
    reveal_strlit("base_bsdf");
    reveal_strlit("coat_bsdf");
    reveal_strlit("fuzz_bsdf");
    reveal_strlit("trans_bsdf");
    reveal_strlit("ss_bsdf");
    let terms = seq![term(0), term(1), term(2), term(3), term(4)];
    let four = terms.drop_last();
    let three = four.drop_last();
    let two = three.drop_last();
    let one = two.drop_last();
    assert(text::joined(one, " + "@) == term(0));
    assert(text::joined(two, " + "@) == term(0) + " + "@ + term(1));
    assert(text::joined(three, " + "@) == term(0) + " + "@ + term(1) + " + "@ + term(2));
    assert(text::joined(four, " + "@) == text::joined(three, " + "@) + " + "@ + term(3));
    assert(text::joined(terms, " + "@) == text::joined(four, " + "@) + " + "@ + term(4));
}

/// What stands around the light loop.
proof fn lemma_shading_has_loop(tangents: Seq<char>)
    ensures
        has(shading::shading_text(tangents), light_loop()),
{
    let front = shading::locals_text(shading::MATERIAL_LOCALS@) + shading::LIGHT_LOOP_LOCALS@
        + tangents;
    let back = shading::AMBIENT@ + source::call_text(
        "emission"@,
        "evaluate_emission"@,
        helpers::EMISSION_PARAMS@,
    ) + shading::RESULT@;
    assert(shading::shading_text(tangents) =~= front + light_loop() + back);
    declaration_laws::lemma_has_between(front, light_loop(), back);
}

pub(crate) proof fn lemma_entry_has(
    stage: Seq<char>,
    name: Seq<char>,
    params: Seq<char>,
    ret: Seq<char>,
    body: Seq<char>,
    needle: Seq<char>,
)
    requires
        has(body, needle),
    ensures
        has(source::entry_text(stage, name, params, ret, body), needle),
{
    let front = stage + "\nfn "@ + name + "("@ + params + ") -> "@ + ret + " { "@;
    declaration_laws::lemma_has_between(front, body, " }\n"@);
    declaration_laws::lemma_has_within(
        source::entry_text(stage, name, params, ret, body),
        body,
        needle,
    );
}

/// The fragment stages of deferred lighting and of forward shading hold the light loop.
pub proof fn both_stages_hold_the_light_loop()
    ensures
        has(lighting_generated::lighting_text(), light_loop()),
        has(pbr_generated::pbr_text(), light_loop()),
{
    lemma_shading_has_loop(lighting_generated::TANGENTS@);
    lemma_shading_has_loop(""@);
    lemma_both_stages_hold(light_loop());
}

/// The fragment stages of deferred lighting and of forward shading hold what the shared body holds.
pub(crate) proof fn lemma_both_stages_hold(needle: Seq<char>)
    requires
        has(shading::shading_text(lighting_generated::TANGENTS@), needle),
        has(shading::shading_text(""@), needle),
    ensures
        has(lighting_generated::lighting_text(), needle),
        has(pbr_generated::pbr_text(), needle),
{
    declaration_laws::lemma_has_right(
        lighting_generated::GBUFFER_READ@,
        shading::shading_text(lighting_generated::TANGENTS@),
        needle,
    );
    lemma_lighting_holds(needle);
    declaration_laws::lemma_has_right(
        pbr_generated::SURFACE@,
        shading::shading_text(""@),
        needle,
    );
    lemma_pbr_holds(needle);
}

/// The lighting module holds what its fragment body holds.
pub(crate) proof fn lemma_lighting_holds(needle: Seq<char>)
    requires
        has(lighting_generated::fragment_body_text(), needle),
    ensures
        has(lighting_generated::lighting_text(), needle),
{
    let body = lighting_generated::fragment_body_text();
    let entry = lighting_generated::fragment_entry_text();
    lemma_entry_has(
        "@fragment"@,
        lighting_generated::FRAGMENT_ENTRY_POINT@,
        "@location(0) uv: vec2<f32>"@,
        "@location(0) vec4<f32>"@,
        body,
        needle,
    );
    let kernels = text::joined(
        crate::shaders::math::kernel_texts(crate::shaders::math::LIGHTING_KERNELS@),
        "\n"@,
    );
    let front = lighting_generated::header_text() + "\n"@ + helpers::consts_text() + "\n"@
        + text::joined(helpers::lighting_decode(), "\n"@) + "\n"@ + text::joined(
        helpers::shared_helpers(),
        "\n"@,
    ) + "\n"@;
    declaration_laws::lemma_has_right(front, entry, needle);
    declaration_laws::lemma_has_left(front + entry, "\n"@, needle);
    declaration_laws::lemma_has_left(front + entry + "\n"@, kernels, needle);
}

/// The forward module holds what its fragment body holds.
pub(crate) proof fn lemma_pbr_holds(needle: Seq<char>)
    requires
        has(pbr_generated::fragment_body_text(), needle),
    ensures
        has(pbr_generated::pbr_text(), needle),
{
    let body = pbr_generated::fragment_body_text();
    let entry = pbr_generated::fs_main_text();
    lemma_entry_has(
        "@fragment"@,
        pbr_generated::FRAGMENT_ENTRY_POINT@,
        "input: FragmentInput"@,
        "@location(0) vec4<f32>"@,
        body,
        needle,
    );
    let pieces = pbr_generated::pbr_module().pieces();
    let last = pieces.len() - 1;
    assert(pieces[last] == entry);
    lemma_entry_chomped(entry, pbr_generated::FRAGMENT_ENTRY_POINT@, body);
    declaration_laws::every_piece_is_emitted(pieces, last);
    declaration_laws::lemma_has_within(pbr_generated::pbr_text(), entry, needle);
}

/// An entry point loses only its last line feed at its edges.
proof fn lemma_entry_chomped(entry: Seq<char>, name: Seq<char>, body: Seq<char>)
    requires
        entry == source::entry_text(
            "@fragment"@,
            name,
            "input: FragmentInput"@,
            "@location(0) vec4<f32>"@,
            body,
        ),
    ensures
        text::chomped(entry).len() > 0,
        text::chomped(entry) + "\n"@ == entry,
{
    reveal_strlit("@fragment");
    reveal_strlit(" }\n");
    reveal_strlit("\n");
    assert(entry[0] == '@');
    assert(entry[entry.len() - 1] == '\n');
    assert(entry[entry.len() - 2] == '}');
    assert(text::chomped_start(entry) == entry);
    let shorter = entry.drop_last();
    assert(text::chomped_end(shorter) == shorter);
    assert(text::chomped_end(entry) == shorter);
    assert(shorter + "\n"@ == entry);
}

/// What an evaluator does.
pub open spec fn evaluator_body(m: int) -> Seq<char> {
    if m == 0 {
        helpers::BASE_LAYER_BODY@
    } else if m == 1 {
        helpers::COAT_LAYER_BODY@
    } else if m == 2 {
        helpers::FUZZ_LAYER_BODY@
    } else if m == 3 {
        helpers::TRANSMISSION_LAYER_BODY@
    } else {
        helpers::SUBSURFACE_LAYER_BODY@
    }
}

/// The definition of an evaluator.
pub open spec fn definition(m: int) -> Seq<char> {
    source::function_text(
        layers()[m].evaluator,
        layers()[m].params,
        helpers::COLOR@,
        evaluator_body(m),
    )
}

proof fn lemma_joined_holds(parts: Seq<Seq<char>>, sep: Seq<char>, i: int)
    requires
        0 <= i < parts.len(),
    ensures
        has(text::joined(parts, sep), parts[i]),
    decreases parts.len(),
{
    declaration_laws::lemma_has_self(parts[i]);
    if parts.len() > 1 {
        let rest = text::joined(parts.drop_last(), sep);
        if i == parts.len() - 1 {
            declaration_laws::lemma_has_right(rest + sep, parts[i], parts[i]);
        } else {
            lemma_joined_holds(parts.drop_last(), sep, i);
            declaration_laws::lemma_has_left(rest, sep, parts[i]);
            declaration_laws::lemma_has_left(rest + sep, parts.last(), parts[i]);
        }
    }
}

/// The evaluators lose only their last line feed at their edges.
proof fn lemma_helpers_chomped()
    ensures
        ({
            let all = text::joined(helpers::shared_helpers(), "\n"@);
            text::chomped(all).len() > 0 && text::chomped(all) + "\n"@ == all
        }),
{
    reveal_strlit("fn ");
    reveal_strlit(" }\n");
    reveal_strlit("\n");
    let parts = helpers::shared_helpers();
    let all = text::joined(parts, "\n"@);
    lemma_joined_start(parts, "\n"@);
    assert(parts[0][0] == 'f');
    assert(all[0] == 'f');
    let last = parts.last();
    assert(last[last.len() - 1] == '\n');
    assert(last[last.len() - 2] == '}');
    assert(all[all.len() - 1] == '\n');
    assert(all[all.len() - 2] == '}');
    assert(text::chomped_start(all) == all);
    let shorter = all.drop_last();
    assert(text::chomped_end(shorter) == shorter);
    assert(text::chomped_end(all) == shorter);
    assert(shorter + "\n"@ == all);
}

proof fn lemma_joined_start(parts: Seq<Seq<char>>, sep: Seq<char>)
    requires
        parts.len() > 0,
        parts[0].len() > 0,
    ensures
        text::joined(parts, sep).len() > 0,
        text::joined(parts, sep)[0] == parts[0][0],
    decreases parts.len(),
{
    if parts.len() > 1 {
        lemma_joined_start(parts.drop_last(), sep);
    }
}

/// Every evaluator that the light loop calls is defined in both stages, under the name that is
/// called, with the parameters that the call fills.
pub proof fn evaluators_are_defined_as_they_are_called(m: int)
    requires
        0 <= m < layers().len(),
    ensures
        has(lighting_generated::lighting_text(), definition(m)),
        has(pbr_generated::pbr_text(), definition(m)),
{
    let parts = helpers::shared_helpers();
    let all = text::joined(parts, "\n"@);
    assert(parts[m] == definition(m));
    lemma_joined_holds(parts, "\n"@, m);
    let front = lighting_generated::header_text() + "\n"@ + helpers::consts_text() + "\n"@
        + text::joined(helpers::lighting_decode(), "\n"@) + "\n"@;
    let kernels = text::joined(
        crate::shaders::math::kernel_texts(crate::shaders::math::LIGHTING_KERNELS@),
        "\n"@,
    );
    let entry = lighting_generated::fragment_entry_text();
    declaration_laws::lemma_has_right(front, all, definition(m));
    declaration_laws::lemma_has_left(front + all, "\n"@, definition(m));
    declaration_laws::lemma_has_left(front + all + "\n"@, entry, definition(m));
    declaration_laws::lemma_has_left(front + all + "\n"@ + entry, "\n"@, definition(m));
    declaration_laws::lemma_has_left(
        front + all + "\n"@ + entry + "\n"@,
        kernels,
        definition(m),
    );
    let pieces = pbr_generated::pbr_module().pieces();
    assert(pieces[7] == all);
    lemma_helpers_chomped();
    declaration_laws::every_piece_is_emitted(pieces, 7);
    declaration_laws::lemma_has_within(pbr_generated::pbr_text(), all, definition(m));
}

/// The weight of a layer, as the fragment names it.
pub open spec fn weight(m: int) -> Seq<char> {
    if m == 0 {
        shading::MATERIAL_LOCALS@[0].0@
    } else if m == 1 {
        shading::MATERIAL_LOCALS@[26].0@
    } else if m == 2 {
        shading::MATERIAL_LOCALS@[23].0@
    } else if m == 3 {
        shading::MATERIAL_LOCALS@[9].0@
    } else {
        shading::MATERIAL_LOCALS@[16].0@
    }
}

/// Where a layer's own weight is not positive, its evaluator returns nothing. The base layer has no
/// such way out.
pub proof fn layers_without_weight_add_nothing(m: int)
    requires
        1 <= m < layers().len(),
    ensures
        text::occurs_at(
            evaluator_body(m),
            "if ("@ + weight(m) + " <= 0.0) { return vec3<f32>(0.0); } "@,
            0,
        ),
{
    reveal_strlit("if (");
    reveal_strlit(" <= 0.0) { return vec3<f32>(0.0); } ");
    let guard = "if ("@ + weight(m) + " <= 0.0) { return vec3<f32>(0.0); } "@;
    if m == 1 {
        reveal_strlit("coat_weight");
        reveal_strlit("if (coat_weight <= 0.0) { return vec3<f32>(0.0); } \
    let coat_f0 = vec3<f32>(fresnel0_from_ior(coat_ior)); \
    let coat_f = fresnel_schlick_vec(voh, coat_f0); \
    let coat_alpha = openpbr_anisotropy(coat_roughness, coat_anisotropy); \
    let coat_alpha_u = coat_alpha.x; \
    let coat_alpha_v = coat_alpha.y; \
    let coat_d = ggx_ndf_aniso(noh, h, t, b, coat_alpha_u, coat_alpha_v); \
    let coat_g = smith_ggx_aniso(nov, nol, v, l, t, b, coat_alpha_u, coat_alpha_v); \
    let coat_brdf = coat_d * coat_g * coat_f / max(4.0 * nov * nol, EPS); \
    let mix_factor = coat_weight * coat_dark; \
    let base_darkening = coat_base_darkening(coat_ior, base_metalness, base_color, base_weight, specular_weight, subsurface_weight, subsurface_color); \
    let darkening = coat_blend_darkened(base_darkening, mix_factor); \
    let coat_albedo_approx = coat_color * coat_weight * luminance(coat_f0); \
    return coat_color * coat_brdf * coat_weight + darkening * coat_albedo_approx;");
        assert(evaluator_body(m).subrange(0, guard.len() as int) =~= guard);
    } else if m == 2 {
        reveal_strlit("fuzz_weight");
        reveal_strlit("if (fuzz_weight <= 0.0) { return vec3<f32>(0.0); } \
    let sheen = sheen_brdf(nov, nol, noh, voh, fuzz_roughness); \
    return fuzz_color * sheen * fuzz_weight;");
        assert(evaluator_body(m).subrange(0, guard.len() as int) =~= guard);
    } else if m == 3 {
        reveal_strlit("transmission_weight");
        reveal_strlit("if (transmission_weight <= 0.0) { return vec3<f32>(0.0); } \
    let ior_out = 1.0; \
    let ior_in = specular_ior; \
    let eta = ior_in / ior_out; \
    let alpha = openpbr_anisotropy(specular_roughness, specular_anisotropy); \
    let extinction = transmission_color_to_extinction(transmission_color, transmission_depth); \
    let distance = transmission_depth; \
    let btdf = transmission_btdf(nov, nol, voh, ior_in, ior_out, alpha.x, extinction, distance); \
    return transmission_color * btdf * transmission_weight;");
        assert(evaluator_body(m).subrange(0, guard.len() as int) =~= guard);
    } else {
        reveal_strlit("subsurface_weight");
        reveal_strlit("if (subsurface_weight <= 0.0) { return vec3<f32>(0.0); } \
    let radius = vec3<f32>(subsurface_radius * subsurface_radius_scale_r, subsurface_radius * subsurface_radius_scale_g, subsurface_radius * subsurface_radius_scale_b); \
    let v_proj = v - n * nov; \
    let l_proj = l - n * nol; \
    let distance = length(v_proj - l_proj); \
    let ss_brdf = subsurface_brdf(nov, nol, distance, radius, subsurface_scatter_anisotropy); \
    return subsurface_color * ss_brdf * subsurface_weight;");
        assert(evaluator_body(m).subrange(0, guard.len() as int) =~= guard);
    }
}

/// What the components of the slots of a material record mean: the locals of the fragment that are
/// read from them. Components without a name are not read.
pub open spec fn meanings() -> Seq<Seq<&'static str>> {
    seq![
        seq!["base_weight", "diffuse_roughness", "metalness", ""],
        seq!["base_color", "base_color", "base_color", ""],
        seq!["specular_weight", "specular_roughness", "specular_ior", "specular_anisotropy"],
        seq!["specular_edge_tint", "specular_edge_tint", "specular_edge_tint", ""],
        seq![
            "transmission_weight",
            "transmission_depth",
            "transmission_dispersion_scale",
            "transmission_dispersion_abbe",
        ],
        seq!["transmission_color", "transmission_color", "transmission_color", ""],
        seq![
            "transmission_scatter",
            "transmission_scatter",
            "transmission_scatter",
            "transmission_scatter_anisotropy",
        ],
        seq![
            "subsurface_weight",
            "subsurface_radius",
            "subsurface_radius_scale_r",
            "subsurface_scatter_anisotropy",
        ],
        seq!["subsurface_color", "subsurface_color", "subsurface_color", ""],
        seq!["subsurface_radius_scale_g", "subsurface_radius_scale_b", "", ""],
        seq!["fuzz_weight", "fuzz_roughness", "", ""],
        seq!["fuzz_color", "fuzz_color", "fuzz_color", ""],
        seq!["coat_weight", "coat_roughness", "coat_anisotropy", "coat_darkening"],
        seq!["coat_color", "coat_color", "coat_color", ""],
        seq!["coat_ior", "", "", ""],
        seq!["thin_film_weight", "thin_film_thickness_um", "thin_film_ior", ""],
        seq!["emission_luminance", "", "", ""],
        seq!["emission_color", "emission_color", "emission_color", ""],
        seq!["opacity", "thin_walled", "", ""],
        seq!["", "", "", ""],
    ]
}

/// The components that a swizzle names: the first, and how many.
pub open spec fn swizzle(first: int, count: int) -> &'static str {
    if count == 3 {
        "rgb"
    } else if first == 0 {
        "x"
    } else if first == 1 {
        "y"
    } else if first == 2 {
        "z"
    } else {
        "w"
    }
}

/// The local is read from `count` components of the slot, from `first` on, all of which mean it.
pub open spec fn read_from(row: MaterialLocal, slot: int, first: int, count: int) -> bool {
    &&& 0 <= slot < openpbr::OPENPBR_SLOTS@.len()
    &&& row.1 == openpbr::OPENPBR_SLOTS@[slot]
    &&& row.2 == swizzle(first, count) || (first == 3 && count == 1 && row.2 == "a")
    &&& forall|c: int| first <= c < first + count ==> #[trigger] meanings()[slot][c] == row.0
}

/// Every local of a shaded fragment is read from the components of the material record that mean it.
pub proof fn locals_are_read_from_what_means_them(i: int)
    requires
        0 <= i < shading::MATERIAL_LOCALS@.len(),
    ensures
        exists|slot: int, first: int, count: int|
            1 <= count && 0 <= first && first + count <= 4 && #[trigger] read_from(
                shading::MATERIAL_LOCALS@[i],
                slot,
                first,
                count,
            ),
{
    let row = shading::MATERIAL_LOCALS@[i];
    if i == 0 {
        assert(read_from(row, 0, 0, 1));
    } else if i == 1 {
        assert(read_from(row, 1, 0, 3));
    } else if i == 2 {
        assert(read_from(row, 0, 2, 1));
    } else if i == 3 {
        assert(read_from(row, 0, 1, 1));
    } else if i == 4 {
        assert(read_from(row, 2, 0, 1));
    } else if i == 5 {
        assert(read_from(row, 2, 1, 1));
    } else if i == 6 {
        assert(read_from(row, 2, 2, 1));
    } else if i == 7 {
        assert(read_from(row, 2, 3, 1));
    } else if i == 8 {
        assert(read_from(row, 3, 0, 3));
    } else if i == 9 {
        assert(read_from(row, 4, 0, 1));
    } else if i == 10 {
        assert(read_from(row, 4, 1, 1));
    } else if i == 11 {
        assert(read_from(row, 4, 2, 1));
    } else if i == 12 {
        assert(read_from(row, 4, 3, 1));
    } else if i == 13 {
        assert(read_from(row, 5, 0, 3));
    } else if i == 14 {
        assert(read_from(row, 6, 0, 3));
    } else if i == 15 {
        assert(read_from(row, 6, 3, 1));
    } else if i == 16 {
        assert(read_from(row, 7, 0, 1));
    } else if i == 17 {
        assert(read_from(row, 7, 1, 1));
    } else if i == 18 {
        assert(read_from(row, 7, 2, 1));
    } else if i == 19 {
        assert(read_from(row, 7, 3, 1));
    } else if i == 20 {
        assert(read_from(row, 8, 0, 3));
    } else if i == 21 {
        assert(read_from(row, 9, 0, 1));
    } else if i == 22 {
        assert(read_from(row, 9, 1, 1));
    } else if i == 23 {
        assert(read_from(row, 10, 0, 1));
    } else if i == 24 {
        assert(read_from(row, 10, 1, 1));
    } else if i == 25 {
        assert(read_from(row, 11, 0, 3));
    } else if i == 26 {
        assert(read_from(row, 12, 0, 1));
    } else if i == 27 {
        assert(read_from(row, 12, 1, 1));
    } else if i == 28 {
        assert(read_from(row, 12, 2, 1));
    } else if i == 29 {
        assert(read_from(row, 12, 3, 1));
    } else if i == 30 {
        assert(read_from(row, 13, 0, 3));
    } else if i == 31 {
        assert(read_from(row, 14, 0, 1));
    } else if i == 32 {
        assert(read_from(row, 15, 0, 1));
    } else if i == 33 {
        assert(read_from(row, 15, 1, 1));
    } else if i == 34 {
        assert(read_from(row, 15, 2, 1));
    } else if i == 35 {
        assert(read_from(row, 16, 0, 1));
    } else if i == 36 {
        assert(read_from(row, 17, 0, 3));
    } else if i == 37 {
        assert(read_from(row, 18, 0, 1));
    } else {
        assert(read_from(row, 18, 1, 1));
    }
}

/// The g-buffer stage reads every parameter from where the shaded fragment reads it.
pub proof fn both_techniques_read_the_same_components(k: int)
    requires
        0 <= k < gbuffer_generated::PARAM_LOCALS@.len(),
    ensures
        exists|i: int|
            0 <= i < shading::MATERIAL_LOCALS@.len() && (#[trigger] shading::MATERIAL_LOCALS@[i]).1
                == gbuffer_generated::PARAM_LOCALS@[k].1 && shading::MATERIAL_LOCALS@[i].2
                == gbuffer_generated::PARAM_LOCALS@[k].2 && (shading::MATERIAL_LOCALS@[i].0
                == gbuffer_generated::PARAM_LOCALS@[k].0 || shading::MATERIAL_LOCALS@[i].0@
                == "specular_"@ + gbuffer_generated::PARAM_LOCALS@[k].0@),
{
    reveal_strlit("specular_");
    reveal_strlit("roughness");
    reveal_strlit("specular_roughness");
    let rows = shading::MATERIAL_LOCALS@;
    let own = gbuffer_generated::PARAM_LOCALS@;
    assert(rows[5].0@ =~= "specular_"@ + own[0].0@);
    assert(rows[5].1 == own[0].1 && rows[5].2 == own[0].2);
    assert(rows[2].1 == own[1].1 && rows[2].2 == own[1].2);
    assert(rows[4].1 == own[2].1 && rows[4].2 == own[2].2);
    assert(rows[6].1 == own[3].1 && rows[6].2 == own[3].2);
    assert(rows[26].1 == own[4].1 && rows[26].2 == own[4].2);
    assert(rows[27].1 == own[5].1 && rows[27].2 == own[5].2);
    assert(rows[16].1 == own[6].1 && rows[16].2 == own[6].2);
    assert(rows[9].1 == own[7].1 && rows[9].2 == own[7].2);
    assert(rows[23].1 == own[8].1 && rows[23].2 == own[8].2);
    assert(rows[32].1 == own[9].1 && rows[32].2 == own[9].2);
    assert(rows[35].1 == own[10].1 && rows[35].2 == own[10].2);
    assert(k == 0 || k == 1 || k == 2 || k == 3 || k == 4 || k == 5 || k == 6 || k == 7 || k == 8
        || k == 9 || k == 10);
}

/// A shaded fragment, in the order in which it runs: the accumulator, the tangent frame, the light
/// loop, ambient light, emission, and the result.
pub open spec fn shaded(tangents: Seq<char>) -> Seq<char> {
    shading::LIGHT_LOOP_LOCALS@ + tangents + light_loop() + shading::AMBIENT@ + source::call_text(
        "emission"@,
        "evaluate_emission"@,
        helpers::EMISSION_PARAMS@,
    ) + shading::RESULT@
}

/// Both stages have a tangent frame before the light loop runs, and show the sum after it: deferred
/// lighting makes the frame from the normal, forward shading takes it from the surface.
pub proof fn light_is_gathered_before_it_is_shown()
    ensures
        has(lighting_generated::lighting_text(), shaded(lighting_generated::TANGENTS@)),
        has(pbr_generated::pbr_text(), shaded(""@)),
{
    lemma_shading_has_rest(lighting_generated::TANGENTS@);
    lemma_shading_has_rest(""@);
    declaration_laws::lemma_has_right(
        lighting_generated::GBUFFER_READ@,
        shading::shading_text(lighting_generated::TANGENTS@),
        shaded(lighting_generated::TANGENTS@),
    );
    lemma_lighting_holds(shaded(lighting_generated::TANGENTS@));
    declaration_laws::lemma_has_right(
        pbr_generated::SURFACE@,
        shading::shading_text(""@),
        shaded(""@),
    );
    lemma_pbr_holds(shaded(""@));
}

proof fn lemma_shading_has_rest(tangents: Seq<char>)
    ensures
        has(shading::shading_text(tangents), shaded(tangents)),
{
    let front = shading::locals_text(shading::MATERIAL_LOCALS@);
    assert(shading::shading_text(tangents) =~= front + shaded(tangents));
    declaration_laws::lemma_has_self(shaded(tangents));
    declaration_laws::lemma_has_right(front, shaded(tangents), shaded(tangents));
}

/// The sum starts from nothing, and the film over the surface is that of the material.
pub proof fn the_sum_starts_from_nothing()
    ensures
        shading::LIGHT_LOOP_LOCALS@ == "var lo = vec3<f32>(0.0, 0.0, 0.0); "@ + (
        "let thin_film_mod = thin_film_modulation(nov, "@ + shading::MATERIAL_LOCALS@[34].0@ + ", "@
            + shading::MATERIAL_LOCALS@[33].0@ + ", 1.0); "@),
{
    reveal_strlit(
        "var lo = vec3<f32>(0.0, 0.0, 0.0); \
    let thin_film_mod = thin_film_modulation(nov, thin_film_ior, thin_film_thickness_um, 1.0); ",
    );
    reveal_strlit("var lo = vec3<f32>(0.0, 0.0, 0.0); ");
    reveal_strlit("let thin_film_mod = thin_film_modulation(nov, ");
    reveal_strlit("thin_film_ior");
    reveal_strlit(", ");
    reveal_strlit("thin_film_thickness_um");
    reveal_strlit(", 1.0); ");
}

/// The light loop runs over the lights that were uploaded and reads every member of a light's
/// record under its declared name: the direction, the color, and the intensity behind the color.
/// The half vector lies between view and light, every cosine is that of the two vectors that it is
/// named after, and a light behind the surface is passed over.
#[verifier::rlimit(60)]
pub proof fn the_loop_reads_the_uploaded_lights()
    ensures
        ({
            let count = buffer_layouts::LIGHTING@[2].0@;
            let light = "lighting."@ + buffer_layouts::LIGHTING@[1].0@ + "[i]."@;
            let direction = light + buffer_layouts::LIGHT@[0].0@;
            let color = light + buffer_layouts::LIGHT@[1].0@;
            shading::LIGHT_LOOP_HEAD@ == ("for (var i: u32 = 0; i < lighting."@ + count
                + "; i = i + 1) { "@) + ("let l = normalize("@ + direction + ".xyz); "@)
                + "let h = normalize(v + l); "@ + ("let light_color = "@ + color + ".rgb; "@) + (
            "let intensity = "@ + color + ".w; "@) + "let radiance = light_color * intensity; "@
                + cosine("nol"@, "n"@, "l"@) + cosine("noh"@, "n"@, "h"@) + cosine(
                "voh"@,
                "v"@,
                "h"@,
            ) + "if (nol <= EPS) { continue; } "@
        }),
{
    reveal_strlit("for (var i: u32 = 0; i < lighting.light_count; i = i + 1) { \
    let l = normalize(lighting.lights[i].direction.xyz); \
    let h = normalize(v + l); \
    let light_color = lighting.lights[i].color.rgb; \
    let intensity = lighting.lights[i].color.w; \
    let radiance = light_color * intensity; \
    let nol = max(dot(n, l), EPS); \
    let noh = max(dot(n, h), EPS); \
    let voh = max(dot(v, h), EPS); \
    if (nol <= EPS) { continue; } ");
    reveal_strlit("for (var i: u32 = 0; i < lighting.");
    reveal_strlit("light_count");
    reveal_strlit("; i = i + 1) { ");
    reveal_strlit("let l = normalize(");
    reveal_strlit("lighting.");
    reveal_strlit("lights");
    reveal_strlit("[i].");
    reveal_strlit("direction");
    reveal_strlit("color");
    reveal_strlit(".xyz); ");
    reveal_strlit("let h = normalize(v + l); ");
    reveal_strlit("let light_color = ");
    reveal_strlit(".rgb; ");
    reveal_strlit("let intensity = ");
    reveal_strlit(".w; ");
    reveal_strlit("let radiance = light_color * intensity; ");
    reveal_strlit("let ");
    reveal_strlit(" = max(dot(");
    reveal_strlit(", ");
    reveal_strlit("), EPS); ");
    reveal_strlit("nol");
    reveal_strlit("noh");
    reveal_strlit("voh");
    reveal_strlit("n");
    reveal_strlit("l");
    reveal_strlit("h");
    reveal_strlit("v");
    reveal_strlit("if (nol <= EPS) { continue; } ");
}

/// The clamped cosine between two directions.
pub open spec fn cosine(local: Seq<char>, a: Seq<char>, b: Seq<char>) -> Seq<char> {
    "let "@ + local + " = max(dot("@ + a + ", "@ + b + "), EPS); "@
}

} // verus!
