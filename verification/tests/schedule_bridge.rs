//! Frame passes projected onto a schedule.
use ornis_render::declarations::{SizePolicy, TextureFormat, TextureSpec};
use ornis_render::frame_exec::RenderFrame3D;
use ornis_render::frame_wiring::Technique;
use ornis_render::schedule_bridge::{try_project_schedule, ProjectionError};
use ornis_render::system::SystemSet;

/// Every technique, with and without bloom, projects, and its levels match the frame layout.
#[test]
fn production_plans_project_with_matching_levels() {
    for technique in [Technique::Hybrid, Technique::Deferred, Technique::Forward] {
        for bloom in [false, true] {
            let mut plan = RenderFrame3D::new_with(
                TextureFormat::Rgba8Unorm,
                (32, 32),
                technique,
                bloom,
            );
            let schedule =
                try_project_schedule(plan.systems()).expect("production resources are typed");
            assert_eq!(
                schedule.levels(),
                plan.systems_mut().build().levels(),
                "technique {technique:?} bloom {bloom}: adapter levels != layout levels"
            );
        }
    }
}

/// A pass over a resource without a typed identity does not project.
#[test]
fn untyped_resources_do_not_project() {
    let mut set = SystemSet::new();
    let a = set.create_resource(
        "scratch",
        TextureSpec {
            format: TextureFormat::Rgba8Unorm,
            samples: 1,
            size: SizePolicy::MatchSurface,
        },
    );
    set.add_pass("blur").write(a);
    match try_project_schedule(&set) {
        Ok(_) => panic!("an untyped resource must not project"),
        Err(e) => {
            let text = e.message();
            assert!(text.contains("blur"), "{text}");
            assert!(text.contains("ResourceId(0)"), "{text}");
            assert!(matches!(e, ProjectionError::UntypedResource { .. }));
        }
    }
}

/// The projected order runs every pass once, level by level.
#[test]
fn projected_order_lists_every_pass_once() {
    let frame = RenderFrame3D::new_with(
        TextureFormat::Rgba8Unorm,
        (1280, 720),
        Technique::Hybrid,
        true,
    );
    let order = frame.projected_order().expect("production resources are typed");
    assert_eq!(order, vec![0, 1, 2, 3, 4, 5, 6, 7, 8]);
}
