//! Laws that tie what the renderer records to what the frame declares.
use vstd::prelude::*;
#[allow(unused_imports)]
use vstd::string::*;

use crate::declarations::{Color, PassDecl, ResourceId, SizePolicy, TextureFormat};
use crate::frame_passes::{Bloom0, Bloom1, Bloom2, Depth, Target};
use crate::frame_wiring;
use crate::frame_wiring::Technique;
use crate::renderer;
use crate::renderer::Load;
use crate::system::{FrameResource, PassBody};

verus! {

/// A write to the depth buffer.
pub open spec fn is_depth(w: (ResourceId, Option<Color>)) -> bool {
    w.0 == ResourceId(Depth::key_of())
}

/// Writes of a pass to color targets, in order.
pub open spec fn color_writes(writes: Seq<(ResourceId, Option<Color>)>) -> Seq<
    (ResourceId, Option<Color>),
>
    decreases writes.len(),
{
    if writes.len() == 0 {
        Seq::empty()
    } else if is_depth(writes.last()) {
        color_writes(writes.drop_last())
    } else {
        color_writes(writes.drop_last()).push(writes.last())
    }
}

/// The format of a resource of the frame.
pub open spec fn format_of(format: TextureFormat, id: ResourceId) -> TextureFormat {
    frame_wiring::frame_resources(format)[id.0 as int].spec.format
}

/// A target of the format `target` fits the resource: it has the format of its texture, or the
/// texture comes from outside, in the surface format.
pub open spec fn has_format(id: ResourceId, format: TextureFormat, target: TextureFormat) -> bool {
    if frame_wiring::frame_resources(format)[id.0 as int].external {
        target == format
    } else {
        target == format_of(format, id)
    }
}

/// The pipeline's targets are the color targets that the pass writes, in order, fitting
/// their textures; its depth buffer, where it has one, has the format of the frame's.
pub open spec fn targets_agree(pass: PassDecl, body: PassBody, format: TextureFormat) -> bool {
    let targets = renderer::targets_of(body, format);
    let writes = color_writes(pass.writes);
    &&& targets.len() == writes.len()
    &&& forall|k: int|
        0 <= k < writes.len() ==> has_format(
            writes[k].0,
            format,
            (#[trigger] targets[k]).format,
        )
    &&& renderer::depth_of(body) is Some ==> renderer::depth_of(body) == Some(
        format_of(format, ResourceId(Depth::key_of())),
    )
}

/// An attachment that is declared cleared is recorded cleared to that color, and one whose
/// contents are kept is not declared cleared.
pub open spec fn load_agrees(declared: Option<Color>, load: Load) -> bool {
    &&& declared is Some ==> load == Load::Clear(declared->0)
    &&& load is Keep ==> declared is None
}

/// Every attachment that a pass writes starts as the pass declares it.
pub open spec fn loads_agree(pass: PassDecl, body: PassBody) -> bool {
    let recorded = renderer::recorded(body);
    let writes = color_writes(pass.writes);
    &&& recorded.colors.len() == writes.len()
    &&& forall|k: int|
        0 <= k < writes.len() ==> load_agrees(writes[k].1, #[trigger] recorded.colors[k])
    &&& forall|k: int|
        0 <= k < pass.writes.len() && is_depth(#[trigger] pass.writes[k]) ==> recorded.depth
            is Some && load_agrees(pass.writes[k].1, recorded.depth->0)
}

/// What one pass of the frame agrees on with the renderer.
pub open spec fn pass_agrees(pass: PassDecl, body: PassBody, format: TextureFormat) -> bool {
    targets_agree(pass, body, format) && loads_agree(pass, body)
}

proof fn lemma_single_write(w: (ResourceId, Option<Color>))
    requires
        !is_depth(w),
    ensures
        color_writes(seq![w]) == seq![w],
{
    reveal_with_fuel(color_writes, 2);
    assert(seq![w].drop_last() == Seq::<(ResourceId, Option<Color>)>::empty());
    assert(color_writes(seq![w]) == Seq::<(ResourceId, Option<Color>)>::empty().push(w));
}

proof fn lemma_gbuffer(format: TextureFormat)
    ensures
        pass_agrees(
            frame_wiring::keyed_pass("gbuffer"@, frame_wiring::gbuffer_access()),
            PassBody::Gbuffer,
            format,
        ),
{
    let pass = frame_wiring::keyed_pass("gbuffer"@, frame_wiring::gbuffer_access());
    let w = pass.writes;
    assert(w.len() == 6);
    let c1 = w.subrange(0, 1);
    let c2 = w.subrange(0, 2);
    let c3 = w.subrange(0, 3);
    let c4 = w.subrange(0, 4);
    let c5 = w.subrange(0, 5);
    assert(c1 == seq![w[0]]);
    lemma_single_write(w[0]);
    assert(c2.drop_last() == c1);
    assert(c3.drop_last() == c2);
    assert(c4.drop_last() == c3);
    assert(c5.drop_last() == c4);
    assert(w.drop_last() == c5);
    assert(color_writes(c2) == c2);
    assert(color_writes(c3) == c3);
    assert(color_writes(c4) == c4);
    assert(color_writes(c5) == c5);
    assert(color_writes(w) == c5);
}

proof fn lemma_one_target(pass: PassDecl, body: PassBody, format: TextureFormat)
    requires
        pass.writes.len() == 1,
        !is_depth(pass.writes[0]),
        renderer::targets_of(body, format).len() == 1,
        has_format(pass.writes[0].0, format, renderer::targets_of(body, format)[0].format),
        renderer::depth_of(body) is Some ==> renderer::depth_of(body) == Some(
            format_of(format, ResourceId(Depth::key_of())),
        ),
        renderer::recorded(body).colors.len() == 1,
        load_agrees(pass.writes[0].1, renderer::recorded(body).colors[0]),
    ensures
        pass_agrees(pass, body, format),
{
    assert(pass.writes == seq![pass.writes[0]]);
    lemma_single_write(pass.writes[0]);
}

proof fn lemma_forward(t: Technique, format: TextureFormat)
    requires
        t.forward(),
    ensures
        pass_agrees(
            frame_wiring::keyed_pass("forward"@, frame_wiring::forward_access(t)),
            PassBody::Forward { owns_depth: t == Technique::Forward },
            format,
        ),
{
    let pass = frame_wiring::keyed_pass("forward"@, frame_wiring::forward_access(t));
    let body = PassBody::Forward { owns_depth: t == Technique::Forward };
    if t == Technique::Forward {
        reveal_with_fuel(color_writes, 2);
        let w = pass.writes;
        assert(w.len() == 2);
        assert(w.drop_last() == seq![w[0]]);
        assert(seq![w[0]].drop_last() == Seq::<(ResourceId, Option<Color>)>::empty());
        assert(color_writes(seq![w[0]]) == Seq::<(ResourceId, Option<Color>)>::empty());
        assert(color_writes(w) == seq![w[1]]);
    } else {
        lemma_one_target(pass, body, format);
    }
}

/// Every pass of the frame draws into the textures that it declares: the pipeline's targets have
/// the formats of the written resources, and attachments start as declared.
pub proof fn recorded_passes_match_the_wiring(
    t: Technique,
    bloom: bool,
    format: TextureFormat,
    i: int,
)
    requires
        0 <= i < frame_wiring::frame_passes(t, bloom).len(),
    ensures
        frame_wiring::frame_bodies(t, bloom).len() == frame_wiring::frame_passes(t, bloom).len(),
        frame_wiring::frame_bodies(t, bloom)[i] is Some,
        pass_agrees(
            frame_wiring::frame_passes(t, bloom)[i],
            frame_wiring::frame_bodies(t, bloom)[i]->0,
            format,
        ),
{
    let passes = frame_wiring::frame_passes(t, bloom);
    let bodies = frame_wiring::frame_bodies(t, bloom);
    let layers = frame_wiring::layer_passes(t).len();
    assert(frame_wiring::layer_bodies(t).len() == layers);
    let pass = passes[i];
    let body = bodies[i]->0;
    if i < layers {
        assert(pass == frame_wiring::layer_passes(t)[i]);
        assert(bodies[i] == frame_wiring::layer_bodies(t)[i]);
        if t.deferred() && i == 0 {
            lemma_gbuffer(format);
        } else if t.deferred() && i == 1 {
            lemma_one_target(pass, body, format);
        } else {
            lemma_forward(t, format);
        }
    } else if i < passes.len() - 1 {
        assert(pass == frame_wiring::bloom_passes(t)[i - layers]);
        assert(bodies[i] == frame_wiring::bloom_bodies(t)[i - layers]);
        let j = i - layers;
        assert(j == 0 || j == 1 || j == 2 || j == 3 || j == 4);
        let to = pass.writes[0].0;
        assert(to == ResourceId(Bloom0::key_of()) || to == ResourceId(Bloom1::key_of()) || to
            == ResourceId(Bloom2::key_of()));
        assert(format_of(format, to) == renderer::LAYER_FORMAT);
        assert(body is BloomBright || body is BloomDown || body is BloomUp);
        assert(renderer::targets_of(body, format)[0].format == renderer::LAYER_FORMAT);
        lemma_one_target(pass, body, format);
    } else {
        assert(pass == frame_wiring::keyed_pass(
            "composite"@,
            frame_wiring::composite_access(t, bloom),
        ));
        assert(pass.writes[0].0 == ResourceId(Target::key_of()));
        assert(frame_wiring::frame_resources(format)[Target::key_of() as int].external);
        assert(body is Composite);
        lemma_one_target(pass, body, format);
    }
}

/// The texture budget is the size of all persistent textures.
pub proof fn budget_counts_every_persistent_texture(v: renderer::RendererView)
    ensures
        v.texture_size() == renderer::total_size(v.textures(), v.textures().len() as int),
{
    reveal_with_fuel(renderer::total_size, 9);
    let t = v.textures();
    let pixels = v.width as nat * v.height as nat * v.samples as nat;
    let b = |i: int| t[i].format.bytes();
    assert(v.sample_bytes() * pixels == b(0) * pixels + b(1) * pixels + b(2) * pixels + b(3)
        * pixels + b(4) * pixels + b(5) * pixels + b(6) * pixels + b(7) * pixels) by {
        assert(v.sample_bytes() == b(0) + b(1) + b(2) + b(3) + b(4) + b(5) + b(6) + b(7));
        lemma_sum_times(b(0), b(1), b(2), b(3), pixels);
        lemma_sum_times(b(4), b(5), b(6), b(7), pixels);
        lemma_pair_times(b(0) + b(1) + b(2) + b(3), b(4) + b(5) + b(6) + b(7), pixels);
    }
}

proof fn lemma_pair_times(a: nat, b: nat, n: nat)
    ensures
        (a + b) * n == a * n + b * n,
{
    assert((a + b) * n == a * n + b * n) by (nonlinear_arith);
}

proof fn lemma_sum_times(a: nat, b: nat, c: nat, d: nat, n: nat)
    ensures
        (a + b + c + d) * n == a * n + b * n + c * n + d * n,
{
    assert((a + b + c + d) * n == a * n + b * n + c * n + d * n) by (nonlinear_arith);
}

/// The renderer's own textures are those of the frame up to the bloom chain, in the same order: of the
/// same format, as large as the output, and the layers of the g-buffer under the same names. Of
/// all resources of a frame only the output comes from outside, and all have one sample.
pub proof fn own_textures_match_the_frame(v: renderer::RendererView, i: int)
    requires
        0 <= i < frame_wiring::frame_resources(v.format).len(),
    ensures
        v.textures().len() == 8,
        ({
            let resource = frame_wiring::frame_resources(v.format)[i];
            &&& resource.spec.samples == 1
            &&& resource.external <==> resource.name == "target"@
            &&& resource.external <==> i == Target::key_of()
            &&& i < 8 ==> {
                let own = v.textures()[i];
                &&& own.format == resource.spec.format
                &&& own.width == v.width && own.height == v.height && own.samples == v.samples
                &&& resource.spec.size == SizePolicy::MatchSurface
                &&& i < 6 ==> own.label@ == "gbuffer "@ + resource.name
            }
        }),
{
    reveal_strlit("gbuffer ");
    reveal_strlit("albedo");
    reveal_strlit("normal");
    reveal_strlit("material_id");
    reveal_strlit("world_position");
    reveal_strlit("material_params");
    reveal_strlit("depth");
    reveal_strlit("target");
    reveal_strlit("hdr");
    reveal_strlit("hdr_fwd");
    reveal_strlit("bloom0");
    reveal_strlit("bloom1");
    reveal_strlit("bloom2");
    reveal_strlit("gbuffer albedo");
    reveal_strlit("gbuffer normal");
    reveal_strlit("gbuffer material_id");
    reveal_strlit("gbuffer world_position");
    reveal_strlit("gbuffer material_params");
    reveal_strlit("gbuffer depth");
    let own = v.textures();
    let resources = frame_wiring::frame_resources(v.format);
    assert(i == 0 || i == 1 || i == 2 || i == 3 || i == 4 || i == 5 || i == 6 || i == 7 || i == 8
        || i == 9 || i == 10 || i == 11);
    let target = "target"@;
    assert(target.len() == 6 && target[0] == 't');
    assert("albedo"@[0] == 'a' && "normal"@[0] == 'n' && "bloom0"@[0] == 'b');
    assert("bloom1"@[0] == 'b' && "bloom2"@[0] == 'b');
    assert("gbuffer albedo"@ =~= "gbuffer "@ + "albedo"@);
    assert("gbuffer normal"@ =~= "gbuffer "@ + "normal"@);
    assert("gbuffer material_id"@ =~= "gbuffer "@ + "material_id"@);
    assert("gbuffer world_position"@ =~= "gbuffer "@ + "world_position"@);
    assert("gbuffer material_params"@ =~= "gbuffer "@ + "material_params"@);
    assert("gbuffer depth"@ =~= "gbuffer "@ + "depth"@);
}

/// A capacity drops only what does not fit: counts within it stay, counts beyond it become it.
pub proof fn capacities_drop_only_what_does_not_fit(count: nat, capacity: nat)
    ensures
        renderer::capped(count, capacity) <= count,
        renderer::capped(count, capacity) <= capacity,
        renderer::capped(count, capacity) == count || renderer::capped(count, capacity)
            == capacity,
{
}

} // verus!
