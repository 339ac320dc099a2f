//! Declaring and walking a render graph.
use ornis_render::declarations::{Color, ResourceId, SizePolicy, TextureFormat, TextureSpec};
use ornis_render::layout::GraphLayout;
use ornis_render::render_graph::RenderGraph;

fn spec(format: TextureFormat, samples: u32) -> TextureSpec {
    TextureSpec {
        format,
        samples,
        size: SizePolicy::MatchSurface,
    }
}

#[test]
fn render_graph_lifetime_window_basic() {
    let mut g = RenderGraph::new((1920, 1080));
    let albedo = g.create_resource("albedo", spec(TextureFormat::Rgba8Unorm, 1));
    let hdr = g.create_resource("hdr", spec(TextureFormat::Rgba16Float, 1));
    let depth = g.create_resource("depth", spec(TextureFormat::Depth32Float, 1));

    g.add_pass("gbuffer").write(albedo).write(depth);
    g.add_pass("lighting").read(albedo).read(depth).write(hdr);

    let layout = g.build();
    assert_eq!(layout.passes.len(), 2);
    let a = &layout.resources[albedo.0 as usize];
    assert_eq!(
        (a.first_use, a.last_use),
        (0, 1),
        "albedo: gbuffer to lighting"
    );
    let h = &layout.resources[hdr.0 as usize];
    assert_eq!(
        (h.first_use, h.last_use),
        (1, 1),
        "hdr lives only on lighting"
    );
    let d = &layout.resources[depth.0 as usize];
    assert_eq!((d.first_use, d.last_use), (0, 1));
    // Different formats to different slots.
    assert_ne!(a.slot, h.slot);
    assert_eq!(layout.slots.len(), 3);
}

#[test]
fn render_graph_transient_slot_reuse_same_spec() {
    // a lives [0,1], b lives [2,3], same spec to one slot (aliasing).
    let mut g = RenderGraph::new((320, 240));
    let a = g.create_resource("a", spec(TextureFormat::Rgba8Unorm, 1));
    let b = g.create_resource("b", spec(TextureFormat::Rgba8Unorm, 1));

    g.add_pass("p0").write(a);
    g.add_pass("p1").read(a);
    g.add_pass("p2").write(b);
    g.add_pass("p3").read(b);

    let layout = g.build();
    assert_eq!(
        layout.slots.len(),
        1,
        "non-overlapping windows share a slot"
    );
    assert_eq!(layout.slots[0].resources, vec![a, b]);
    assert_eq!(layout.resources[a.0 as usize].slot, Some(0));
    assert_eq!(layout.resources[b.0 as usize].slot, Some(0));
}

#[test]
fn render_graph_overlapping_resources_need_distinct_slots() {
    // a [0,1], b [1,2]: overlap on pass 1 to two slots.
    let mut g = RenderGraph::new((320, 240));
    let a = g.create_resource("a", spec(TextureFormat::Rgba8Unorm, 1));
    let b = g.create_resource("b", spec(TextureFormat::Rgba8Unorm, 1));

    g.add_pass("p0").write(a);
    g.add_pass("p1").read(a).write(b);
    g.add_pass("p2").read(b);

    let layout = g.build();
    assert_eq!(layout.slots.len(), 2);
    assert_ne!(
        layout.resources[a.0 as usize].slot,
        layout.resources[b.0 as usize].slot
    );
}

#[test]
fn render_graph_imported_resource_may_be_read_first() {
    let mut g = RenderGraph::new((320, 240));
    let shadow = g.import_resource("shadow", spec(TextureFormat::R32Float, 1));
    g.add_pass("p0").read(shadow);
    g.add_pass("p1").read(shadow);
    let layout = g.build(); // does not panic
    let rl = &layout.resources[shadow.0 as usize];
    assert_eq!((rl.first_use, rl.last_use), (0, 1));
    assert_eq!(rl.slot, Some(0));
}

#[test]
fn render_graph_disabled_pass_culls_its_resources() {
    let mut g = RenderGraph::new((320, 240));
    let a = g.create_resource("a", spec(TextureFormat::Rgba8Unorm, 1));
    let b = g.create_resource("b", spec(TextureFormat::Rgba8Unorm, 1));
    let p1 = g.add_pass("p1").write(a).id();
    g.add_pass("p2").write(b);

    g.set_pass_enabled(p1, false);
    let layout = g.build();
    assert_eq!(layout.passes.len(), 1);
    assert_eq!(layout.passes[0].name, "p2");
    let ra = &layout.resources[a.0 as usize];
    assert_eq!(
        ra.first_use,
        usize::MAX,
        "a is not used by any enabled pass"
    );
    assert_eq!(ra.slot, None);
    assert_eq!(layout.slots.len(), 1, "only b gets a slot");
}

#[test]
fn render_graph_execute_delivers_live_resources_and_slots() {
    let mut g = RenderGraph::new((640, 480));
    let a = g.create_resource("a", spec(TextureFormat::Rgba8Unorm, 1));
    let b = g.create_resource("b", spec(TextureFormat::Rgba16Float, 1));
    g.add_pass("gbuffer").write(a);
    g.add_pass("lighting").read(a).write(b);
    g.add_pass("composite").read(b);

    let layout = g.build();
    let mut visits: Vec<(usize, Vec<ResourceId>, Option<usize>)> = Vec::new();
    for ctx in g.execute(&layout) {
        let slot_a = ctx.slot_of(a);
        visits.push((ctx.pass_index(), ctx.alive().to_vec(), slot_a));
    }

    assert_eq!(visits[0], (0, vec![a], Some(0)), "gbuffer: a alive");
    assert_eq!(
        visits[1],
        (1, vec![a, b], Some(0)),
        "lighting: a and b alive"
    );
    assert_eq!(visits[2], (2, vec![b], None), "composite: a is dead");
    assert_eq!(
        ctx_pass_names(&layout),
        vec!["gbuffer", "lighting", "composite"]
    );
}

fn ctx_pass_names(layout: &GraphLayout) -> Vec<String> {
    layout.passes.iter().map(|p| p.name.clone()).collect()
}

#[test]
fn render_graph_debug_dump_lists_structure() {
    let mut g = RenderGraph::new((1280, 720));
    let albedo = g.create_resource("albedo", spec(TextureFormat::Rgba8Unorm, 1));
    let hdr = g.create_resource("hdr", spec(TextureFormat::Rgba16Float, 1));
    g.add_pass("gbuffer").write(albedo);
    g.add_pass("lighting").read(albedo).write(hdr);

    let dump = g.build().debug_dump();
    assert!(dump.contains("2 passes"), "dump: {dump}");
    assert!(dump.contains("'gbuffer'"), "dump: {dump}");
    assert!(dump.contains("'hdr'"), "dump: {dump}");
    assert!(dump.contains("pool slots"), "dump: {dump}");
    assert!(dump.contains("albedo"), "dump: {dump}");
}

#[test]
fn render_graph_clear_value_is_carried_to_layout() {
    let mut g = RenderGraph::new((640, 480));
    let hdr = g.create_resource("hdr", spec(TextureFormat::Rgba16Float, 1));
    let pid = {
        let builder = g.add_pass("lighting");
        let pid = builder.id();
        builder.write_clear(hdr, Color::black());
        pid
    };
    let layout = g.build();
    assert_eq!(
        layout.passes[pid.0 as usize].writes,
        vec![(hdr, Some(Color::black()))]
    );
}
