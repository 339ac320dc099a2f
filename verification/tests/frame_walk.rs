//! Walking prepared frames: pools, views and the order of recorded work.
use ornis_render::declarations::{SizePolicy, TextureFormat, TextureSpec};
use ornis_render::frame_exec::{submission_order, FrameExecutor, RenderFrame3D, ViewSource};
use ornis_render::frame_wiring::Technique;
use ornis_render::levels::flatten_levels;
use ornis_render::system::SystemSet;
use ornis_render::transient_pool::Budget;

fn hybrid() -> RenderFrame3D {
    RenderFrame3D::new_with(TextureFormat::Rgba8Unorm, (1280, 720), Technique::Hybrid, true)
}

#[test]
fn textures_are_created_once_per_size() {
    let mut frame = hybrid();
    let (_, change) = frame.begin_frame();
    assert!(change.cleared);
    assert_eq!(change.create.len(), 10);
    assert_eq!(frame.pool_slots(), 10);
    let (_, change) = frame.begin_frame();
    assert!(!change.cleared);
    assert!(change.create.is_empty());
    frame.set_surface_size(640, 360);
    let (_, change) = frame.begin_frame();
    assert!(change.cleared);
    assert_eq!(change.create, (0..10).collect::<Vec<usize>>());
}

#[test]
fn the_pool_holds_what_the_layout_plans() {
    let mut frame = hybrid();
    let (layout, _) = frame.begin_frame();
    assert_eq!(frame.texture_budget(), layout.planned_pool_bytes());
}

#[test]
fn every_declared_access_is_backed() {
    let mut frame = hybrid();
    let (layout, _) = frame.begin_frame();
    let order: Vec<usize> = (0..layout.passes.len()).collect();
    let target = frame.ids().target;
    let mut backed = 0;
    for views in frame.pass_views(&layout, &order) {
        let pass = views.pass();
        let written = pass.writes.iter().map(|(id, _)| *id);
        for id in pass.reads.iter().copied().chain(written) {
            if id == target {
                assert_eq!(views.view_of(id), ViewSource::External(id));
            } else {
                let slot = views.slot_of(id).expect("pooled");
                assert_eq!(views.view_of(id), ViewSource::Slot(slot));
            }
            backed += 1;
        }
    }
    assert_eq!(backed, 29);
}

#[test]
fn slot_mates_do_not_live_together() {
    let mut frame = hybrid();
    let (layout, _) = frame.begin_frame();
    for slot in &layout.slots {
        for (k, a) in slot.resources.iter().enumerate() {
            for b in &slot.resources[k + 1..] {
                let (a, b) = (
                    &layout.resources[a.0 as usize],
                    &layout.resources[b.0 as usize],
                );
                assert!(a.last_use < b.first_use, "{} and {}", a.name, b.name);
            }
        }
    }
}

#[test]
fn parallel_recordings_are_submitted_in_pass_order() {
    assert_eq!(
        submission_order(vec![(2, "c"), (0, "a"), (3, "d"), (1, "b")]),
        vec![(0, "a"), (1, "b"), (2, "c"), (3, "d")]
    );
    assert_eq!(submission_order::<u8>(vec![]), vec![]);
}

#[test]
fn recordings_of_one_position_keep_their_order() {
    assert_eq!(
        submission_order(vec![(1, "a"), (0, "b"), (1, "c"), (0, "d"), (1, "e")]),
        vec![(0, "b"), (0, "d"), (1, "a"), (1, "c"), (1, "e")]
    );
}

#[test]
fn levels_are_walked_one_after_the_other() {
    assert_eq!(
        flatten_levels(&vec![vec![0, 2], vec![], vec![1]]),
        vec![0, 2, 1]
    );
}

#[test]
fn parallel_recording_is_off_at_first() {
    let mut frame = hybrid();
    assert!(!frame.parallel_recording());
    frame.set_parallel_recording(true);
    assert!(frame.parallel_recording());
    assert!(frame.bloom_enabled());
    assert_eq!(frame.technique(), Technique::Hybrid);
}

#[test]
fn dropping_the_memoized_layout_compiles_again() {
    let mut set = SystemSet::new();
    let a = set.create_resource(
        "a",
        TextureSpec {
            format: TextureFormat::Rgba8Unorm,
            samples: 1,
            size: SizePolicy::MatchSurface,
        },
    );
    set.add_pass("p0").write(a);
    let mut executor = FrameExecutor::new();
    let _ = executor.ensure_layout(&set);
    executor.invalidate_layout();
    let _ = executor.ensure_layout(&set);
    assert_eq!(executor.layout_computations(), 2);
    assert_eq!(executor.slots_len(), 0);
    assert_eq!(executor.texture_budget(), 0);
}

#[test]
fn starting_a_frame_keeps_its_settings() {
    let mut frame = hybrid();
    frame.set_parallel_recording(true);
    let computed = frame.systems().layout_computations();
    let _ = frame.begin_frame();
    assert!(frame.parallel_recording());
    assert!(frame.bloom_enabled());
    assert_eq!(frame.technique(), Technique::Hybrid);
    assert_eq!(frame.systems().layout_computations(), computed);
}

#[test]
fn a_frame_over_budget_is_not_started() {
    let mut frame = hybrid();
    let (layout, _) = frame.begin_frame();
    let needed = layout.planned_pool_bytes();
    frame.set_budget(Budget::gpu_textures(needed - 1));
    let refused = frame.try_begin_frame().expect_err("over budget");
    assert_eq!((refused.required, refused.budget), (needed, needed - 1));
    assert_eq!(frame.pool_slots(), 10);
    frame.set_budget(Budget::gpu_textures(needed));
    let (again, change) = frame.try_begin_frame().expect("within budget");
    assert_eq!(again.planned_pool_bytes(), needed);
    assert!(!change.cleared && change.create.is_empty());
}

#[test]
fn slots_of_a_specification_number_its_greatest_overlap() {
    let mut frame = hybrid();
    let (layout, _) = frame.begin_frame();
    for slot in &layout.slots {
        let slots = layout.slots.iter().filter(|s| s.spec == slot.spec).count();
        let overlap = (0..layout.passes.len())
            .map(|pass| {
                layout
                    .resources
                    .iter()
                    .filter(|r| r.slot.is_some() && r.spec == slot.spec && r.alive_at(pass))
                    .count()
            })
            .max();
        assert_eq!(overlap, Some(slots), "{:?}", slot.spec);
    }
}
