//! What holds of the wiring of the 3D frame, whatever the technique.
use vstd::prelude::*;

#[allow(unused_imports)]
use crate::declarations::{
    enabled_ids, frame_of, reads_of, reads_unwritten, touches, writes_of, Color, PassDecl,
    ResourceId, TextureFormat,
};
#[allow(unused_imports)]
use crate::frame_wiring::{
    bloom_access, bloom_passes, bright_input, composite_access, composite_reads, forward_access,
    frame_passes, frame_resources, gbuffer_access, keyed_pass, layer_passes, lighting_access,
    Technique,
};
#[allow(unused_imports)]
use crate::frame_exec::{frame_wired, projects};
#[allow(unused_imports)]
use crate::frame_plan::PlanView;
#[allow(unused_imports)]
use crate::graph_frame::graph_wired;
#[allow(unused_imports)]
use crate::layout::GraphLayout;
#[allow(unused_imports)]
use crate::layout_laws::{layout_is_determined, same_layout, same_layouts_dump_alike};
#[allow(unused_imports)]
use crate::levels::levels_ok;
#[allow(unused_imports)]
use crate::schedule_bridge::{names_unique, projected_levels_match_the_layout, Schedule};
#[allow(unused_imports)]
use crate::system::{AccessView, SystemsView};
#[allow(unused_imports)]
use crate::transient_pool::declarations_ok;

verus! {

/// If every pass is enabled, the frame is the whole list.
proof fn lemma_all_enabled(passes: Seq<PassDecl>)
    requires
        forall|i: int| 0 <= i < passes.len() ==> (#[trigger] passes[i]).enabled,
    ensures
        frame_of(passes) == passes,
        enabled_ids(passes) == Seq::new(passes.len(), |i: int| i),
    decreases passes.len(),
{
    if passes.len() > 0 {
        lemma_all_enabled(passes.drop_last());
        assert(enabled_ids(passes) =~= Seq::new(passes.len(), |i: int| i));
    } else {
        assert(enabled_ids(passes) =~= Seq::new(passes.len(), |i: int| i));
    }
    assert(frame_of(passes) =~= passes);
}

/// Accesses of a keyed pass.
proof fn lemma_keyed_access(name: Seq<char>, access: AccessView, r: ResourceId)
    ensures
        reads_of(keyed_pass(name, access), r) <==> access.reads.contains(r.0),
        writes_of(keyed_pass(name, access), r) <==> exists|k: int|
            0 <= k < access.writes.len() && (#[trigger] access.writes[k]).0 == r.0,
{
    let p = keyed_pass(name, access);
    if reads_of(p, r) {
        let k = choose|k: int| 0 <= k < p.reads.len() && p.reads[k] == r;
        assert(access.reads[k] == r.0);
    }
    if access.reads.contains(r.0) {
        let k = choose|k: int| 0 <= k < access.reads.len() && access.reads[k] == r.0;
        assert(p.reads[k] == r);
    }
    if writes_of(p, r) {
        let k = choose|k: int| 0 <= k < p.writes.len() && (#[trigger] p.writes[k]).0 == r;
        assert(access.writes[k].0 == r.0);
    }
    if exists|k: int| 0 <= k < access.writes.len() && (#[trigger] access.writes[k]).0 == r.0 {
        let k = choose|k: int|
            0 <= k < access.writes.len() && (#[trigger] access.writes[k]).0 == r.0;
        assert(p.writes[k].0 == r);
    }
}

/// Accesses of the layer passes.
proof fn lemma_layers(t: Technique, i: int, r: ResourceId)
    requires
        0 <= i < layer_passes(t).len(),
    ensures
        layer_passes(t)[i].enabled,
        touches(layer_passes(t)[i], r) ==> r.0 < 8,
        reads_of(layer_passes(t)[i], r) ==> i > 0 && writes_of(layer_passes(t)[0], r),
{
    lemma_keyed_access("gbuffer"@, gbuffer_access(), r);
    lemma_keyed_access("lighting"@, lighting_access(), r);
    lemma_keyed_access("forward"@, forward_access(t), r);
    let g = gbuffer_access();
    if r.0 < 6 {
        assert(g.writes[r.0 as int].0 == r.0);
    }
}

/// The layers that the technique makes are written by its layer passes.
proof fn lemma_layers_written(t: Technique, r: ResourceId)
    requires
        t.deferred() && r.0 == 6 || t.forward() && r.0 == 7,
    ensures
        exists|i: int| 0 <= i < layer_passes(t).len() && #[trigger] writes_of(layer_passes(t)[i], r),
{
    lemma_keyed_access("lighting"@, lighting_access(), r);
    lemma_keyed_access("forward"@, forward_access(t), r);
    if r.0 == 6 {
        assert(lighting_access().writes[0].0 == r.0);
        assert(layer_passes(t)[1] == keyed_pass("lighting"@, lighting_access()));
        assert(writes_of(layer_passes(t)[1], r));
    } else {
        let last = layer_passes(t).len() - 1;
        assert(layer_passes(t)[last] == keyed_pass("forward"@, forward_access(t)));
        let a = forward_access(t);
        assert(a.writes[a.writes.len() - 1].0 == r.0);
        assert(writes_of(layer_passes(t)[last], r));
    }
}

/// Accesses of the bloom passes.
proof fn lemma_bloom(t: Technique, i: int, r: ResourceId)
    requires
        0 <= i < 5,
    ensures
        bloom_passes(t).len() == 5,
        bloom_passes(t)[i].enabled,
        touches(bloom_passes(t)[i], r) ==> r.0 < 12,
        reads_of(bloom_passes(t)[i], r) ==> r.0 == bright_input(t) || exists|k: int|
            0 <= k < i && #[trigger] writes_of(bloom_passes(t)[k], r),
        writes_of(bloom_passes(t)[0], ResourceId(9)),
{
    let b = black_clear();
    let a0 = bloom_access(bright_input(t), 9, b);
    let a1 = bloom_access(9, 10, b);
    let a2 = bloom_access(10, 11, b);
    let a3 = bloom_access(11, 10, None);
    let a4 = bloom_access(10, 9, None);
    lemma_keyed_access("bloom_down0"@, a0, r);
    lemma_keyed_access("bloom_down1"@, a1, r);
    lemma_keyed_access("bloom_down2"@, a2, r);
    lemma_keyed_access("bloom_up1"@, a3, r);
    lemma_keyed_access("bloom_up0"@, a4, r);
    lemma_keyed_access("bloom_down0"@, a0, ResourceId(9));
    let ps = bloom_passes(t);
    assert(a0.writes[0].0 == 9 && a1.writes[0].0 == 10 && a2.writes[0].0 == 11);
    assert(r.0 == 9 ==> writes_of(ps[0], r));
    assert(r.0 == 10 ==> writes_of(ps[1], r));
    assert(r.0 == 11 ==> writes_of(ps[2], r));
}

/// Clear to black.
spec fn black_clear() -> Option<Color> {
    Some(crate::declarations::black())
}

/// Every technique, with or without bloom, declares a frame that compiles: all accesses name
/// registered resources and nothing is read before it is written.
pub proof fn every_technique_compiles(t: Technique, bloom: bool, format: TextureFormat)
    ensures
        declarations_ok(frame_resources(format), frame_passes(t, bloom)),
        frame_of(frame_passes(t, bloom)) == frame_passes(t, bloom),
{
    let ps = frame_passes(t, bloom);
    let layers = layer_passes(t);
    let n = layers.len() as int;
    let last = ps.len() - 1;
    assert(bloom_passes(t).len() == 5);
    assert forall|i: int, r: ResourceId| 0 <= i < ps.len() && #[trigger] touches(
        ps[i],
        r,
    ) implies r.0 < 12 by {
        lemma_access_in_range(t, bloom, i, r);
    }
    assert forall|i: int| 0 <= i < ps.len() implies (#[trigger] ps[i]).enabled by {
        lemma_access_in_range(t, bloom, i, ResourceId(0));
    }
    lemma_all_enabled(ps);
    assert forall|i: int, r: ResourceId| #[trigger]
        reads_unwritten(ps, i, r) implies frame_resources(format)[r.0 as int].imported by {
        if i < n {
            lemma_layers(t, i, r);
            assert(ps[i] == layers[i] && ps[0] == layers[0]);
            assert(writes_of(ps[0], r));
        } else if i < last {
            let b = i - n;
            lemma_bloom(t, b, r);
            assert(ps[i] == bloom_passes(t)[b]);
            if r.0 == bright_input(t) {
                lemma_layers_written(t, r);
                let k = choose|k: int| 0 <= k < layers.len() && #[trigger] writes_of(layers[k], r);
                assert(ps[k] == layers[k]);
                assert(writes_of(ps[k], r));
            } else {
                let k = choose|k: int| 0 <= k < b && #[trigger] writes_of(bloom_passes(t)[k], r);
                assert(ps[n + k] == bloom_passes(t)[k]);
                assert(writes_of(ps[n + k], r));
            }
        } else {
            lemma_keyed_access("composite"@, composite_access(t, bloom), r);
            assert(ps[last] == keyed_pass("composite"@, composite_access(t, bloom)));
            let reads = composite_reads(t, bloom);
            let k = choose|k: int| 0 <= k < reads.len() && reads[k] == r.0;
            if r.0 == 9 {
                assert(bloom);
                lemma_bloom(t, 0, r);
                assert(ps[n] == bloom_passes(t)[0]);
                assert(writes_of(ps[n], r));
            } else {
                lemma_layers_written(t, r);
                let k = choose|k: int| 0 <= k < layers.len() && #[trigger] writes_of(layers[k], r);
                assert(ps[k] == layers[k]);
                assert(writes_of(ps[k], r));
            }
        }
    }
}

/// Every pass of the frame is enabled and names only the twelve resources.
proof fn lemma_access_in_range(t: Technique, bloom: bool, i: int, r: ResourceId)
    requires
        0 <= i < frame_passes(t, bloom).len(),
    ensures
        frame_passes(t, bloom)[i].enabled,
        touches(frame_passes(t, bloom)[i], r) ==> r.0 < 12,
{
    let ps = frame_passes(t, bloom);
    let layers = layer_passes(t);
    let n = layers.len() as int;
    if i < n {
        lemma_layers(t, i, r);
        assert(ps[i] == layers[i]);
    } else if i < ps.len() - 1 {
        assert(bloom_passes(t).len() == 5);
        lemma_bloom(t, i - n, r);
        assert(ps[i] == bloom_passes(t)[i - n]);
    } else {
        lemma_keyed_access("composite"@, composite_access(t, bloom), r);
        assert(ps[i] == keyed_pass("composite"@, composite_access(t, bloom)));
    }
}

/// The typed registration and the wiring by hand describe one frame: whichever declares it, the
/// compiled layouts hold the same values.
pub proof fn typed_and_manual_wirings_agree(
    typed: SystemsView,
    manual: PlanView,
    format: TextureFormat,
    size: (u32, u32),
    t: Technique,
    bloom: bool,
    x: GraphLayout,
    y: GraphLayout,
)
    requires
        frame_wired(typed, format, size, t, bloom),
        graph_wired(manual, format, size, t, bloom),
        typed.plan.compiles_to(x),
        manual.compiles_to(y),
    ensures
        same_layout(x, y),
        x.dump_text() == y.dump_text(),
{
    assert(typed.plan.ordering =~= manual.ordering);
    layout_is_determined(
        x,
        y,
        frame_resources(format),
        frame_passes(t, bloom),
        typed.plan.ordering,
        size,
    );
    same_layouts_dump_alike(x, y);
}

/// The projection of every technique's frame levels it exactly as its layout does.
pub proof fn every_technique_projects_with_matching_levels(
    v: SystemsView,
    format: TextureFormat,
    size: (u32, u32),
    t: Technique,
    bloom: bool,
    layout: GraphLayout,
    schedule: Schedule,
    x: Seq<Vec<usize>>,
    y: Seq<Vec<usize>>,
)
    requires
        frame_wired(v, format, size, t, bloom),
        v.plan.compiles_to(layout),
        projects(v, schedule),
        levels_ok(layout.dependencies(), x),
        levels_ok(schedule.dependencies(), y),
    ensures
        x.len() == y.len(),
        forall|i: int| 0 <= i < x.len() ==> (#[trigger] x[i])@ == y[i]@,
{
    every_technique_compiles(t, bloom, format);
    lemma_frame_names_unique(t, bloom);
    projected_levels_match_the_layout(v, layout, schedule, x, y);
}

/// The passes of a frame have different names.
proof fn lemma_frame_names_unique(t: Technique, bloom: bool)
    ensures
        names_unique(frame_passes(t, bloom)),
{
    reveal_strlit("gbuffer");
    reveal_strlit("lighting");
    reveal_strlit("forward");
    reveal_strlit("bloom_down0");
    reveal_strlit("bloom_down1");
    reveal_strlit("bloom_down2");
    reveal_strlit("bloom_up1");
    reveal_strlit("bloom_up0");
    reveal_strlit("composite");
    let down0 = "bloom_down0"@;
    let down1 = "bloom_down1"@;
    let down2 = "bloom_down2"@;
    assert(down0[10] == '0' && down1[10] == '1' && down2[10] == '2');
    let up0 = "bloom_up0"@;
    let up1 = "bloom_up1"@;
    assert(up0[8] == '0' && up1[8] == '1');
    assert("gbuffer"@[0] == 'g' && "forward"@[0] == 'f');
    assert("gbuffer"@.len() == 7 && "forward"@.len() == 7 && "lighting"@.len() == 8);
    assert(up0.len() == 9 && up1.len() == 9 && "composite"@.len() == 9);
    assert(up0[0] == 'b' && up1[0] == 'b' && "composite"@[0] == 'c');
    assert(down0.len() == 11 && down1.len() == 11 && down2.len() == 11);
}

} // verus!
