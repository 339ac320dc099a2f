//! Wiring, layouts and pools of the plan-based frame.
use ornis_render::declarations::{Color, PassId, ResourceId, SizePolicy, TextureFormat, TextureSpec};
use ornis_render::frame_exec::RenderFrame3D;
use ornis_render::frame_plan::FramePlan;
use ornis_render::frame_wiring::Technique;
use ornis_render::graph_frame::{GraphIds, RenderGraph3D};
use ornis_render::transient_pool::{format_bytes_per_pixel, Budget};

#[test]
fn graph_frame_bytes_per_pixel_table() {
    assert_eq!(format_bytes_per_pixel(TextureFormat::Rgba8Unorm), 4);
    assert_eq!(
        format_bytes_per_pixel(TextureFormat::Rgba8UnormSrgb),
        4
    );
    assert_eq!(format_bytes_per_pixel(TextureFormat::Rg16Float), 4);
    assert_eq!(format_bytes_per_pixel(TextureFormat::R32Uint), 4);
    assert_eq!(format_bytes_per_pixel(TextureFormat::Rgba16Float), 8);
    assert_eq!(format_bytes_per_pixel(TextureFormat::Depth32Float), 4);
    assert_eq!(format_bytes_per_pixel(TextureFormat::Rgba32Float), 16);
}

#[test]
fn graph_frame_technique_flag_matrix() {
    // Forward: no gbuffer/lighting, forward node present.
    assert!(!Technique::Forward.has_deferred());
    assert!(Technique::Forward.has_forward());
    assert_eq!(Technique::Forward.composite_mode(), 1);
    // Deferred: deferred chain only, no forward node.
    assert!(Technique::Deferred.has_deferred());
    assert!(!Technique::Deferred.has_forward());
    assert_eq!(Technique::Deferred.composite_mode(), 0);
    // Hybrid: both node sets.
    assert!(Technique::Hybrid.has_deferred());
    assert!(Technique::Hybrid.has_forward());
    assert_eq!(Technique::Hybrid.composite_mode(), 2);
}

#[test]
fn graph_frame_technique_wires_expected_passes() {
    let pass_names = |technique: Technique| {
        let mut graph =
            RenderGraph3D::new_with(TextureFormat::Rgba8Unorm, (32, 32), technique, true);
        graph.graph_mut()
            .build()
            .passes
            .iter()
            .map(|p| p.name.clone())
            .collect::<Vec<_>>()
    };
    assert_eq!(
        pass_names(Technique::Forward),
        vec![
            "forward",
            "bloom_down0",
            "bloom_down1",
            "bloom_down2",
            "bloom_up1",
            "bloom_up0",
            "composite"
        ]
    );
    assert_eq!(
        pass_names(Technique::Deferred),
        vec![
            "gbuffer",
            "lighting",
            "bloom_down0",
            "bloom_down1",
            "bloom_down2",
            "bloom_up1",
            "bloom_up0",
            "composite"
        ]
    );
    assert_eq!(
        pass_names(Technique::Hybrid),
        vec![
            "gbuffer",
            "lighting",
            "forward",
            "bloom_down0",
            "bloom_down1",
            "bloom_down2",
            "bloom_up1",
            "bloom_up0",
            "composite"
        ]
    );
}

#[test]
fn graph_frame_technique_bloom_input_follows_hdr_layer() {
    // Forward-only: bloom's bright-pass input is `hdr_fwd` (hdr dead).
    let mut forward = RenderGraph3D::new_with(
        TextureFormat::Rgba8Unorm,
        (32, 32),
        Technique::Forward,
        true,
    );
    let layout = forward.graph_mut().build();
    let down0 = layout
        .passes
        .iter()
        .find(|p| p.name == "bloom_down0")
        .expect("bloom_down0 exists");
    assert_eq!(down0.reads, vec![forward.ids().hdr_fwd]);
    // Hybrid: bright-pass input is `hdr`.
    let mut hybrid = RenderGraph3D::new_with(
        TextureFormat::Rgba8Unorm,
        (32, 32),
        Technique::Hybrid,
        true,
    );
    let layout = hybrid.graph_mut().build();
    let down0 = layout
        .passes
        .iter()
        .find(|p| p.name == "bloom_down0")
        .expect("bloom_down0 exists");
    assert_eq!(down0.reads, vec![hybrid.ids().hdr]);
}

#[test]
fn graph_frame_technique_forward_owns_depth_in_forward_mode() {
    let mut forward = RenderGraph3D::new_with(
        TextureFormat::Rgba8Unorm,
        (32, 32),
        Technique::Forward,
        false,
    );
    let layout = forward.graph_mut().build();
    let fwd = layout
        .passes
        .iter()
        .find(|p| p.name == "forward")
        .expect("forward pass exists");
    // Depth is cleared (owned) by the forward pass itself.
    assert!(
        fwd.writes
            .iter()
            .any(|(id, clear)| *id == forward.ids().depth && clear.is_some())
    );
    // Composite reads only the forward layer: hdr stays dead/unpooled.
    let composite = layout
        .passes
        .iter()
        .find(|p| p.name == "composite")
        .expect("composite exists");
    assert_eq!(
        composite.reads,
        vec![forward.ids().hdr_fwd, forward.ids().target]
            .into_iter()
            .filter(|id| *id != forward.ids().target)
            .collect::<Vec<_>>(),
        "composite reads the live layers only"
    );
    assert!(!composite.reads.contains(&forward.ids().hdr));
    // hdr and the gbuffer targets are never touched to not pooled.
    let dead = layout
        .resources
        .iter()
        .filter(|r| r.first_use == usize::MAX)
        .map(|r| r.name.as_str())
        .collect::<Vec<_>>();
    assert!(dead.contains(&"hdr"));
    assert!(dead.contains(&"albedo"));
}

#[test]
fn graph_frame_texture_budget_matches_spec() {
    // 1280x720: Rgba16Float = 8 B/px * 921_600 px = 7_372_800 B.
    let spec = TextureSpec {
        format: TextureFormat::Rgba16Float,
        samples: 1,
        size: SizePolicy::Fixed {
            width: 1280,
            height: 720,
        },
    };
    let mut graph = FramePlan::new((1280, 720));
    let a = graph.create_resource("a", spec);
    let b = graph.create_resource("b", spec);
    graph.add_pass("p0").write(a);
    graph.add_pass("p2").read(a);
    graph.add_pass("p3").write(b);
    graph.add_pass("p4").read(b);
    // a [0,1], b [2,3]: same spec, non-overlapping to one slot.
    let layout = graph.build();
    assert_eq!(layout.slots.len(), 1);
    // Budget math is exercised on the wgpu side (needs a device); here
    // we only pin the per-slot byte formula via the layout spec.
    assert_eq!(
        format_bytes_per_pixel(spec.format) as u64 * 1280 * 720,
        7_372_800
    );
}

#[test]
fn graph_frame_layout_cache_reused_across_frames() {
    let mut g3 = RenderGraph3D::new_with(
        TextureFormat::Rgba8Unorm,
        (1280, 720),
        Technique::Hybrid,
        true,
    );
    // Two "frames" without mutations to one computation.
    let _ = g3.graph_mut().layout();
    let dump_a = g3.layout_dump();
    let _ = g3.graph_mut().layout();
    let dump_b = g3.layout_dump();
    assert_eq!(g3.graph().layout_computations(), 1);
    assert_eq!(dump_a, dump_b, "layout must not change between frames");

    // Window resize to recompute once, then cache again.
    g3.set_surface_size(1920, 1080);
    let _ = g3.layout_dump();
    assert_eq!(g3.graph().layout_computations(), 2);
    let _ = g3.layout_dump();
    assert_eq!(g3.graph().layout_computations(), 2, "cached after resize");
}

/// Resource registration by hand: the reference for the typed registration.
fn imperative_resources(
    graph: &mut FramePlan,
    surface_format: TextureFormat,
) -> GraphIds {
    let spec = |format| TextureSpec {
        format,
        samples: 1,
        size: SizePolicy::MatchSurface,
    };
    let frac = |format, divisor| TextureSpec {
        format,
        samples: 1,
        size: SizePolicy::Fraction(divisor),
    };
    GraphIds {
        albedo: graph.create_resource("albedo", spec(TextureFormat::Rgba8Unorm)),
        normal: graph.create_resource("normal", spec(TextureFormat::Rg16Float)),
        material_id: graph.create_resource("material_id", spec(TextureFormat::R32Uint)),
        world_position: graph
            .create_resource("world_position", spec(TextureFormat::Rg16Float)),
        material_params: graph
            .create_resource("material_params", spec(TextureFormat::Rgba16Float)),
        depth: graph.create_resource("depth", spec(TextureFormat::Depth32Float)),
        hdr: graph.create_resource("hdr", spec(surface_format)),
        hdr_fwd: graph.create_resource("hdr_fwd", spec(TextureFormat::Rgba16Float)),
        target: graph.external_output("target"),
        bloom0: graph.create_resource("bloom0", frac(TextureFormat::Rgba16Float, 2)),
        bloom1: graph.create_resource("bloom1", frac(TextureFormat::Rgba16Float, 4)),
        bloom2: graph.create_resource("bloom2", frac(TextureFormat::Rgba16Float, 8)),
    }
}

/// Pass wiring by hand: the reference for the typed systems.
fn imperative_passes(
    graph: &mut FramePlan,
    ids: &GraphIds,
    technique: Technique,
    bloom: bool,
) {
    if technique.has_deferred() {
        graph
            .add_pass("gbuffer")
            .write(ids.albedo)
            .write(ids.normal)
            .write(ids.material_id)
            .write(ids.world_position)
            .write(ids.material_params)
            .write(ids.depth);
        graph
            .add_pass("lighting")
            .read(ids.albedo)
            .read(ids.normal)
            .read(ids.material_id)
            .read(ids.world_position)
            .read(ids.material_params)
            .read(ids.depth)
            .write_clear(ids.hdr, Color::black());
    }
    if technique.has_forward() {
        let pass = graph.add_pass("forward");
        let pass = if technique == Technique::Forward {
            pass.write_clear(ids.depth, Color::white())
        } else {
            pass.read(ids.depth)
        };
        pass.write_clear(ids.hdr_fwd, Color::transparent());
    }
    if bloom {
        let bloom_input = if technique.has_deferred() {
            ids.hdr
        } else {
            ids.hdr_fwd
        };
        graph
            .add_pass("bloom_down0")
            .read(bloom_input)
            .write_clear(ids.bloom0, Color::black());
        graph
            .add_pass("bloom_down1")
            .read(ids.bloom0)
            .write_clear(ids.bloom1, Color::black());
        graph
            .add_pass("bloom_down2")
            .read(ids.bloom1)
            .write_clear(ids.bloom2, Color::black());
        graph
            .add_pass("bloom_up1")
            .read(ids.bloom2)
            .write(ids.bloom1);
        graph
            .add_pass("bloom_up0")
            .read(ids.bloom1)
            .write(ids.bloom0);
    }
    let mut composite = graph.add_pass("composite").write(ids.target);
    if technique.has_deferred() {
        composite = composite.read(ids.hdr);
    }
    if technique.has_forward() {
        composite = composite.read(ids.hdr_fwd);
    }
    if bloom {
        composite.read(ids.bloom0);
    }
}

/// The wiring by hand as one plan: resources, then passes.
fn imperative_wiring(
    surface_format: TextureFormat,
    surface_size: (u32, u32),
    technique: Technique,
    bloom: bool,
) -> FramePlan {
    let mut graph = FramePlan::new(surface_size);
    let ids = imperative_resources(&mut graph, surface_format);
    imperative_passes(&mut graph, &ids, technique, bloom);
    graph
}

#[test]
fn graph_frame_typed_wiring_matches_imperative_reference() {
    let fmt = TextureFormat::Rgba8Unorm;
    for technique in [Technique::Forward, Technique::Deferred, Technique::Hybrid] {
        for bloom in [false, true] {
            let mut typed = RenderGraph3D::new_with(fmt, (1280, 720), technique, bloom);
            let mut reference = imperative_wiring(fmt, (1280, 720), technique, bloom);
            assert_eq!(
                typed.graph_mut().build().debug_dump(),
                reference.build().debug_dump(),
                "typed wiring diverged: {technique:?} bloom={bloom}"
            );
        }
    }
}

fn slots_for(technique: Technique, bloom: bool) -> usize {
    let mut g3 = RenderGraph3D::new_with(
        TextureFormat::Rgba8Unorm,
        (1280, 720),
        technique,
        bloom,
    );
    g3.graph_mut().layout().slots.len()
}

#[test]
fn graph_frame_golden_pool_slots_per_technique() {
    // Pinned (surface format Rgba8Unorm so
    // `hdr` shares the albedo spec group): 9 resources to 7 slots on the
    // deferred/hybrid path; the bloom cascade adds exactly its three
    // fraction levels (bloom0/1/2 have distinct TextureSpec keys).
    assert_eq!(slots_for(Technique::Forward, false), 2);
    assert_eq!(slots_for(Technique::Forward, true), 5);
    assert_eq!(slots_for(Technique::Deferred, false), 7);
    assert_eq!(slots_for(Technique::Deferred, true), 10);
    assert_eq!(slots_for(Technique::Hybrid, false), 7);
    assert_eq!(slots_for(Technique::Hybrid, true), 10);
}

#[test]
fn graph_frame_golden_bloom_adds_exactly_three_slots() {
    for technique in [Technique::Forward, Technique::Deferred, Technique::Hybrid] {
        assert_eq!(
            slots_for(technique, true) - slots_for(technique, false),
            3,
            "bloom cascade must add exactly its three fraction levels"
        );
    }
}

#[test]
fn graph_frame_golden_dead_layers_are_unpooled() {
    // Forward-only: the deferred HDR layer and the gbuffer targets are
    // never touched to no lifetime window, no pool slot.
    let mut fwd = RenderGraph3D::new_with(
        TextureFormat::Rgba8Unorm,
        (1280, 720),
        Technique::Forward,
        true,
    );
    let ids = fwd.ids();
    let layout = fwd.graph_mut().layout().clone();
    for id in [ids.hdr, ids.albedo, ids.normal] {
        let rl = &layout.resources[id.0 as usize];
        assert_eq!(rl.first_use, usize::MAX, "{} must be dead", rl.name);
        assert_eq!(rl.slot, None);
    }
    // No bloom to the cascade levels are dead.
    let mut plain = RenderGraph3D::new_with(
        TextureFormat::Rgba8Unorm,
        (1280, 720),
        Technique::Hybrid,
        false,
    );
    let ids = plain.ids();
    let layout = plain.graph_mut().layout();
    assert_eq!(layout.resources[ids.bloom0.0 as usize].slot, None);
    assert_eq!(layout.resources[ids.bloom1.0 as usize].slot, None);
    assert_eq!(layout.resources[ids.bloom2.0 as usize].slot, None);
}

#[test]
fn graph_frame_golden_hybrid_lifetimes() {
    let mut g3 = RenderGraph3D::new_with(
        TextureFormat::Rgba8Unorm,
        (1280, 720),
        Technique::Hybrid,
        true,
    );
    let ids = g3.ids();
    let layout = g3.graph_mut().layout();
    let window = |id: ResourceId| {
        let rl = &layout.resources[id.0 as usize];
        (rl.first_use, rl.last_use)
    };
    // gbuffer=0, lighting=1, forward=2, bloom chain 3..8, composite=8.
    assert_eq!(window(ids.depth), (0, 2), "depth: gbuffer to forward");
    assert_eq!(window(ids.hdr), (1, 8));
    assert_eq!(window(ids.hdr_fwd), (2, 8));
    assert_eq!(window(ids.bloom0), (3, 8));
}

#[test]
fn graph_frame_production_graph_levels() {
    // Levels of hybrid with bloom (pass indices in registration order): gbuffer, then lighting
    // beside forward, which share no resources, then the bloom chain and composite.
    let mut g3 = RenderGraph3D::new_with(
        TextureFormat::Rgba8Unorm,
        (1280, 720),
        Technique::Hybrid,
        true,
    );
    let levels = g3.graph_mut().layout().levels();
    let pass_count = levels.iter().map(|l| l.len()).sum::<usize>();
    assert_eq!(pass_count, 9, "hybrid + bloom: 9 passes");
    assert_eq!(levels[0], vec![0], "gbuffer first");
    assert_eq!(
        levels[1],
        vec![1, 2],
        "lighting runs in parallel with forward"
    );
    for (expected_level, pass) in levels.iter().skip(2).zip(3..9) {
        assert_eq!(*expected_level, vec![pass], "bloom chain + composite");
    }
}

#[test]
fn graph_frame_budget_exceeded_is_actionable() {
    let mut g3 = RenderGraph3D::new_with(
        TextureFormat::Rgba8Unorm,
        (1280, 720),
        Technique::Hybrid,
        true,
    );
    let planned = g3.graph_mut().layout().planned_pool_bytes();
    // The exact budget fits.
    g3.set_budget(Budget::gpu_textures(planned));
    assert!(g3.graph_mut().try_layout().is_ok());
    // One byte less is refused, with details.
    g3.set_budget(Budget::gpu_textures(planned - 1));
    let err = g3.graph_mut().try_layout().unwrap_err();
    assert_eq!(err.required, planned);
    assert_eq!(err.budget, planned - 1);
    let msg = err.message();
    assert!(msg.contains("MiB"), "message: {msg}");
    assert!(
        msg.contains("bloom") || msg.contains("hdr"),
        "offenders named: {msg}"
    );
    // Without a budget everything fits again.
    g3.set_budget(Budget::unbounded());
    assert!(g3.graph_mut().try_layout().is_ok());
}

#[test]
fn graph_frame_golden_planned_pool_bytes() {
    // Forward, no bloom, 1280x720: depth (D32, 4 B/px) + hdr_fwd
    // (Rgba16, 8 B/px) = 12 B/px over the surface.
    let mut g3 = RenderGraph3D::new_with(
        TextureFormat::Rgba8Unorm,
        (1280, 720),
        Technique::Forward,
        false,
    );
    let layout = g3.graph_mut().layout();
    assert_eq!(layout.planned_pool_bytes(), 12 * 1280 * 720);
}

#[test]
fn graphs_start_frames_like_the_typed_frame() {
    for technique in [Technique::Forward, Technique::Deferred, Technique::Hybrid] {
        for bloom in [false, true] {
            let size = (640, 360);
            let format = TextureFormat::Rgba8Unorm;
            let mut graph = RenderGraph3D::new_with(format, size, technique, bloom);
            let mut frame = RenderFrame3D::new_with(format, size, technique, bloom);
            assert_eq!(graph.pool_slots(), 0);
            let (layout, change) = graph.begin_frame();
            let (typed, typed_change) = frame.begin_frame();
            assert_eq!(layout.debug_dump(), typed.debug_dump());
            assert!(change.cleared);
            assert_eq!(change.create, typed_change.create);
            assert_eq!(graph.pool_slots(), layout.slots.len());
            assert_eq!(graph.texture_budget(), layout.planned_pool_bytes());
            let order: Vec<usize> = (0..layout.passes.len()).collect();
            for views in graph.pass_views(&layout, &order) {
                let id = views.pass().id;
                assert!(graph.pass_body(id).is_some());
                assert_eq!(graph.pass_body(id), frame.systems().pass_body(id));
            }
            assert_eq!(graph.pass_body(PassId(layout.passes.len() as u32)), None);
            let (_, change) = graph.begin_frame();
            assert!(!change.cleared && change.create.is_empty());
            assert_eq!(graph.graph().layout_computations(), 1);
        }
    }
}

#[test]
fn a_graph_over_budget_starts_no_frame() {
    let mut graph = RenderGraph3D::new(TextureFormat::Rgba8Unorm, (64, 64));
    graph.set_budget(Budget::gpu_textures(1));
    assert!(graph.try_begin_frame().is_err());
    assert_eq!(graph.pool_slots(), 0);
}
