//! Declaring, compiling and caching a frame plan.
use ornis_render::compile::assert_pass_access_declared;
use ornis_render::declarations::{Color, PassId, ResourceId, SizePolicy, TextureFormat, TextureSpec};
use ornis_render::frame_plan::FramePlan;
use ornis_render::transient_pool::FrameLayout;
use ornis_render::ordering::OrderError;

fn spec(format: TextureFormat, samples: u32) -> TextureSpec {
    TextureSpec {
        format,
        samples,
        size: SizePolicy::MatchSurface,
    }
}

#[test]
fn frame_plan_lifetime_window_basic() {
    let mut g = FramePlan::new((1920, 1080));
    let albedo = g.create_resource("albedo", spec(TextureFormat::Rgba8Unorm, 1));
    let hdr = g.create_resource("hdr", spec(TextureFormat::Rgba16Float, 1));
    let depth = g.create_resource("depth", spec(TextureFormat::Depth32Float, 1));

    g.add_pass("gbuffer").write(albedo).write(depth);
    g.add_pass("lighting").read(albedo).read(depth).write(hdr);

    let layout = g.build();
    assert_eq!(layout.passes.len(), 2);
    let a = &layout.resources[albedo.0 as usize];
    assert_eq!(
        (a.first_use, a.last_use),
        (0, 1),
        "albedo: gbuffer to lighting"
    );
    let h = &layout.resources[hdr.0 as usize];
    assert_eq!(
        (h.first_use, h.last_use),
        (1, 1),
        "hdr lives only on lighting"
    );
    let d = &layout.resources[depth.0 as usize];
    assert_eq!((d.first_use, d.last_use), (0, 1));
    // Different formats to different slots.
    assert_ne!(a.slot, h.slot);
    assert_eq!(layout.slots.len(), 3);
}

#[test]
fn frame_plan_transient_slot_reuse_same_spec() {
    // a lives [0,1], b lives [2,3], same spec to one slot (aliasing).
    let mut g = FramePlan::new((320, 240));
    let a = g.create_resource("a", spec(TextureFormat::Rgba8Unorm, 1));
    let b = g.create_resource("b", spec(TextureFormat::Rgba8Unorm, 1));

    g.add_pass("p0").write(a);
    g.add_pass("p1").read(a);
    g.add_pass("p2").write(b);
    g.add_pass("p3").read(b);

    let layout = g.build();
    assert_eq!(
        layout.slots.len(),
        1,
        "non-overlapping windows share a slot"
    );
    assert_eq!(layout.slots[0].resources, vec![a, b]);
    assert_eq!(layout.resources[a.0 as usize].slot, Some(0));
    assert_eq!(layout.resources[b.0 as usize].slot, Some(0));
}

#[test]
fn frame_plan_overlapping_resources_need_distinct_slots() {
    // a [0,1], b [1,2]: overlap on pass 1 to two slots.
    let mut g = FramePlan::new((320, 240));
    let a = g.create_resource("a", spec(TextureFormat::Rgba8Unorm, 1));
    let b = g.create_resource("b", spec(TextureFormat::Rgba8Unorm, 1));

    g.add_pass("p0").write(a);
    g.add_pass("p1").read(a).write(b);
    g.add_pass("p2").read(b);

    let layout = g.build();
    assert_eq!(layout.slots.len(), 2);
    assert_ne!(
        layout.resources[a.0 as usize].slot,
        layout.resources[b.0 as usize].slot
    );
}

#[test]
fn declared_pass_access_passes_enforcement() {
    // Honest pass: read declaration covers the view; write declaration
    // also covers reading its own write:
    // both checks stay silent.
    let mut g = FramePlan::new((320, 240));
    let x = g.create_resource("x", spec(TextureFormat::Rgba8Unorm, 1));
    g.add_pass("writer").write(x);
    g.add_pass("reader").read(x);
    let layout = g.build();
    assert!(assert_pass_access_declared(&layout, 0, x).is_ok());
    assert!(assert_pass_access_declared(&layout, 1, x).is_ok());
}

#[test]
fn frame_plan_imported_resource_may_be_read_first() {
    let mut g = FramePlan::new((320, 240));
    let shadow = g.import_resource("shadow", spec(TextureFormat::R32Float, 1));
    g.add_pass("p0").read(shadow);
    g.add_pass("p1").read(shadow);
    let layout = g.build(); // does not panic
    let rl = &layout.resources[shadow.0 as usize];
    assert_eq!((rl.first_use, rl.last_use), (0, 1));
    assert_eq!(rl.slot, Some(0));
}

#[test]
fn frame_plan_disabled_pass_culls_its_resources() {
    let mut g = FramePlan::new((320, 240));
    let a = g.create_resource("a", spec(TextureFormat::Rgba8Unorm, 1));
    let b = g.create_resource("b", spec(TextureFormat::Rgba8Unorm, 1));
    let p1 = g.add_pass("p1").write(a).id();
    g.add_pass("p2").write(b);

    g.set_pass_enabled(p1, false);
    let layout = g.build();
    assert_eq!(layout.passes.len(), 1);
    assert_eq!(layout.passes[0].name, "p2");
    let ra = &layout.resources[a.0 as usize];
    assert_eq!(
        ra.first_use,
        usize::MAX,
        "a is not used by any enabled pass"
    );
    assert_eq!(ra.slot, None);
    assert_eq!(layout.slots.len(), 1, "only b gets a slot");
}

#[test]
fn frame_plan_execute_delivers_live_resources_and_slots() {
    let mut g = FramePlan::new((640, 480));
    let a = g.create_resource("a", spec(TextureFormat::Rgba8Unorm, 1));
    let b = g.create_resource("b", spec(TextureFormat::Rgba16Float, 1));
    g.add_pass("gbuffer").write(a);
    g.add_pass("lighting").read(a).write(b);
    g.add_pass("composite").read(b);

    let layout = g.build();
    // Per-pass walk over the layout tables (insertion order; disabled
    // passes are already dropped from `passes`).
    let visits: Vec<(usize, Vec<ResourceId>, Option<usize>)> = layout
        .passes
        .iter()
        .enumerate()
        .map(|(index, _)| {
            let slot_a = layout.resources[a.0 as usize]
                .alive_at(index)
                .then(|| layout.resources[a.0 as usize].slot)
                .flatten();
            (index, layout.pass_alive[index].clone(), slot_a)
        })
        .collect();

    assert_eq!(visits[0], (0, vec![a], Some(0)), "gbuffer: a alive");
    assert_eq!(
        visits[1],
        (1, vec![a, b], Some(0)),
        "lighting: a and b alive"
    );
    assert_eq!(visits[2], (2, vec![b], None), "composite: a is dead");
    assert_eq!(
        ctx_pass_names(&layout),
        vec!["gbuffer", "lighting", "composite"]
    );
}

fn ctx_pass_names(layout: &FrameLayout) -> Vec<String> {
    layout.passes.iter().map(|p| p.name.clone()).collect()
}

#[test]
fn independent_branches_share_levels() {
    // p0 to p1 (a to b) and p2 to p3 (c to d) share no resources: levels [p0,p2], [p1,p3].
    let mut g = FramePlan::new((64, 64));
    let a = g.create_resource("a", spec(TextureFormat::Rgba8Unorm, 1));
    let b = g.create_resource("b", spec(TextureFormat::Rgba8Unorm, 1));
    let c = g.create_resource("c", spec(TextureFormat::Rg16Float, 1));
    let d = g.create_resource("d", spec(TextureFormat::Rg16Float, 1));
    g.add_pass("p0").write(a);
    g.add_pass("p1").read(a).write(b);
    g.add_pass("p2").write(c);
    g.add_pass("p3").read(c).write(d);
    let layout = g.build();
    assert_eq!(layout.levels(), vec![vec![0, 2], vec![1, 3]]);
}

#[test]
fn explicit_ordering_splits_shared_level() {
    // p0 to p1 and p2 to p3 are independent: [[0,2],[1,3]]; edge p0 to p2 splits
    // the first level (hidden dependency without access conflict).
    let mut g = FramePlan::new((64, 64));
    let a = g.create_resource("a", spec(TextureFormat::Rgba8Unorm, 1));
    let b = g.create_resource("b", spec(TextureFormat::Rgba8Unorm, 1));
    let c = g.create_resource("c", spec(TextureFormat::Rg16Float, 1));
    let d = g.create_resource("d", spec(TextureFormat::Rg16Float, 1));
    let p0 = g.add_pass("p0").write(a).id();
    g.add_pass("p1").read(a).write(b);
    let p2 = g.add_pass("p2").write(c).id();
    g.add_pass("p3").read(c).write(d);
    assert_eq!(g.build().levels(), vec![vec![0, 2], vec![1, 3]]);
    g.order_before(p0, p2);
    assert_eq!(
        g.build().levels(),
        vec![vec![0], vec![1, 2], vec![3]],
        "explicit edge lifts p2 without touching p1's level"
    );
}

#[test]
fn try_order_before_reports_errors_without_panicking() {
    let mut g = FramePlan::new((64, 64));
    let a = g.create_resource("a", spec(TextureFormat::Rgba8Unorm, 1));
    let b = g.create_resource("b", spec(TextureFormat::Rgba8Unorm, 1));
    let first = g.add_pass("first").write(a).id();
    let second = g.add_pass("second").write(b).id();
    assert!(matches!(
        g.try_order_before(second, first),
        Err(OrderError::BackwardEdge { .. })
    ));
    assert_eq!(
        g.try_order_before_named("first", "ghost").map(|_| ()),
        Err(OrderError::UnknownNode {
            name: "ghost".to_owned(),
        })
    );
    // Id outside the registry is an error, not a silent garbage edge.
    assert!(matches!(
        g.try_order_before(PassId(99), PassId(100)),
        Err(OrderError::UnknownNode { .. })
    ));
    assert_eq!(g.build().levels(), vec![vec![0, 1]]);
    assert!(g.try_order_before(first, second).is_ok());
    assert_eq!(g.build().levels(), vec![vec![0], vec![1]]);
}

#[test]
fn mermaid_is_a_valid_projection() {
    // The graph as a debug projection: levels as subgraphs,
    // resources as nodes, flows as edges; GitHub renders natively.
    let mut g = FramePlan::new((64, 64));
    let a = g.create_resource("a", spec(TextureFormat::Rgba8Unorm, 1));
    let b = g.create_resource("b", spec(TextureFormat::Rg16Float, 1));
    g.add_pass("p0").write(a);
    g.add_pass("p1").read(a).write(b);

    let m = g.build().mermaid();
    assert!(m.starts_with("flowchart TD\n"), "head: {m}");
    assert!(m.contains("subgraph L0[\"level 0\"]"), "levels: {m}");
    assert!(m.contains("P0[\"p0\"]"), "pass nodes: {m}");
    assert!(m.contains("R0[\"a Rgba8Unorm\"]"), "resource nodes: {m}");
    assert!(m.contains("P0 --> R0"), "write edges: {m}");
    assert!(m.contains("R0 --> P1"), "read edges: {m}");
    // Dead resources are excluded from the projection.
    let mut g2 = FramePlan::new((64, 64));
    let dead = g2.create_resource("dead", spec(TextureFormat::Rgba8Unorm, 1));
    let live = g2.create_resource("live", spec(TextureFormat::Rgba8Unorm, 1));
    g2.add_pass("only").write(live);
    let m2 = g2.build().mermaid();
    assert!(!m2.contains("dead"), "dead resource hidden: {m2}");
    assert!(!m2.contains(format!("R{}", dead.0).as_str()));
}

#[test]
fn frame_plan_debug_dump_lists_structure() {
    let mut g = FramePlan::new((1280, 720));
    let albedo = g.create_resource("albedo", spec(TextureFormat::Rgba8Unorm, 1));
    let hdr = g.create_resource("hdr", spec(TextureFormat::Rgba16Float, 1));
    g.add_pass("gbuffer").write(albedo);
    g.add_pass("lighting").read(albedo).write(hdr);

    let dump = g.build().debug_dump();
    assert!(dump.contains("2 passes"), "dump: {dump}");
    assert!(dump.contains("'gbuffer'"), "dump: {dump}");
    assert!(dump.contains("'hdr'"), "dump: {dump}");
    assert!(dump.contains("pool slots"), "dump: {dump}");
    assert!(dump.contains("albedo"), "dump: {dump}");
}

#[test]
fn frame_plan_clear_value_is_carried_to_layout() {
    let mut g = FramePlan::new((640, 480));
    let hdr = g.create_resource("hdr", spec(TextureFormat::Rgba16Float, 1));
    let pid = {
        let builder = g.add_pass("lighting");
        let pid = builder.id();
        builder.write_clear(hdr, Color::black());
        pid
    };
    let layout = g.build();
    assert_eq!(
        layout.passes[pid.0 as usize].writes,
        vec![(hdr, Some(Color::black()))]
    );
}



fn two_pass_plan() -> (FramePlan, ResourceId, ResourceId) {
    let mut g = FramePlan::new((320, 240));
    let a = g.create_resource("a", spec(TextureFormat::Rgba8Unorm, 1));
    let b = g.create_resource("b", spec(TextureFormat::Rgba16Float, 1));
    g.add_pass("p0").write(a);
    g.add_pass("p1").read(a).write(b);
    (g, a, b)
}

#[test]
fn layout_is_cached_until_mutation() {
    let (mut g, _, _) = two_pass_plan();
    assert_eq!(g.layout_computations(), 0, "nothing computed yet");
    let _ = g.build();
    let _ = g.build();
    let _ = g.layout();
    let _ = g.layout();
    assert_eq!(
        g.layout_computations(),
        1,
        "repeated access without mutations must be a cache hit"
    );
}

#[test]
fn every_mutation_invalidates_cache() {
    let (mut g, a, _) = two_pass_plan();
    let _ = g.layout();
    assert_eq!(g.layout_computations(), 1);

    g.set_surface_size(640, 480);
    let _ = g.layout();
    assert_eq!(g.layout_computations(), 2, "resize invalidates");

    // The builder chain covers both `add_pass` and `read`.
    g.add_pass("p2").read(a);
    let _ = g.layout();
    assert_eq!(g.layout_computations(), 3, "add_pass/read invalidates");

    let p2 = PassId(2);
    g.set_pass_enabled(p2, false);
    let _ = g.layout();
    assert_eq!(g.layout_computations(), 4, "pass toggle invalidates");

    g.create_resource("c", spec(TextureFormat::Rgba8Unorm, 1));
    let _ = g.layout();
    assert_eq!(g.layout_computations(), 5, "create_resource invalidates");

    g.import_resource("ext", spec(TextureFormat::R32Float, 1));
    let _ = g.layout();
    assert_eq!(g.layout_computations(), 6, "import_resource invalidates");

    g.invalidate();
    let _ = g.layout();
    assert_eq!(g.layout_computations(), 7, "explicit invalidate works");
}

#[test]
fn build_snapshot_matches_cached_layout() {
    let (mut g, a, b) = two_pass_plan();
    let cached = g.layout().debug_dump();
    let snapshot = g.build().debug_dump();
    assert_eq!(cached, snapshot, "build() must mirror the cached layout");
    assert_eq!(g.layout_computations(), 1);
    // Snapshot ids are the same stable ResourceIds the plan handed out.
    let snapshot = g.build();
    assert_eq!(snapshot.resources[a.0 as usize].name, "a");
    assert_eq!(snapshot.resources[b.0 as usize].name, "b");
}
