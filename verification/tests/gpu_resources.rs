//! Handover of recorded frames and decisions on acquired surfaces.
use ornis_render::declarations::TextureFormat;
use ornis_render::gpu_resources::{
    flush_frame, frame_systems, mesh_to_create, present_action, Acquired, FrameCommandBuffers,
    FramePresentTarget, GpuSurfaceState, PresentAction, PresentResources,
};
use ornis_render::render_backend::{PresentMode, SurfaceUsage};
use ornis_render::scene::{MaterialDesc, MeshDesc, TransformDesc};
use ornis_render::store::RenderStore;

fn assert_send_sync<T: Send + Sync>() {}

#[test]
fn frame_command_buffers_are_world_resources() {
    // Finished buffers and the acquired frame can be shared between threads, unlike a live
    // encoder, which stays local to the frame.
    assert_send_sync::<FrameCommandBuffers<wgpu::CommandBuffer>>();
    assert_send_sync::<wgpu::CommandBuffer>();
    assert_send_sync::<FramePresentTarget<wgpu::SurfaceTexture>>();
    assert_send_sync::<wgpu::SurfaceTexture>();

    let buffers: FrameCommandBuffers<wgpu::CommandBuffer> = FrameCommandBuffers::new();
    assert_eq!(buffers.len(), 0, "fresh install holds no pending buffers");
}

#[test]
fn flushing_hands_over_in_order_and_leaves_nothing() {
    let mut buffers = FrameCommandBuffers::new();
    let mut target = FramePresentTarget::new();
    buffers.push("gbuffer");
    buffers.push("lighting");
    target.put("frame");
    assert_eq!(
        flush_frame(&mut buffers, &mut target),
        (vec!["gbuffer", "lighting"], Some("frame"))
    );
    assert_eq!(flush_frame(&mut buffers, &mut target), (vec![], None));
}

#[test]
fn a_waiting_frame_is_replaced() {
    let mut target = FramePresentTarget::new();
    target.put(1);
    target.put(2);
    assert_eq!(target.take(), Some(2));
    assert_eq!(target.take(), None);
}

fn one_entity() -> RenderStore {
    let one = 1.0f32.to_bits();
    let mut store = RenderStore::new();
    let entity = store.create_entity();
    store.insert_transform(
        entity,
        TransformDesc {
            translation: [0; 3],
            rotation: [0, 0, 0, one],
            scale: [one; 3],
        },
    );
    store.insert_mesh(
        entity,
        MeshDesc::Sphere {
            radius: one,
            segments: 8,
            rings: 6,
        },
    );
    store.insert_material(
        entity,
        MaterialDesc::Metal {
            base_color: [one; 3],
            roughness: one,
        },
    );
    store
}

#[test]
fn acquired_textures_are_recorded() {
    let state = GpuSurfaceState {
        size: (640, 480),
        format: TextureFormat::Bgra8UnormSrgb,
    };
    let store = one_entity();
    for acquired in [Acquired::Success, Acquired::Suboptimal] {
        assert!(matches!(
            present_action(acquired, state, &store),
            PresentAction::Record { instance_count: 1 }
        ));
    }
}

#[test]
fn outdated_surfaces_are_configured_anew() {
    let state = GpuSurfaceState {
        size: (0, 480),
        format: TextureFormat::Bgra8UnormSrgb,
    };
    let store = RenderStore::new();
    for acquired in [Acquired::Outdated, Acquired::Lost] {
        match present_action(acquired, state, &store) {
            PresentAction::Reconfigure(config) => {
                assert_eq!((config.width, config.height), (1, 480));
                assert_eq!(config.format, TextureFormat::Bgra8UnormSrgb);
                assert_eq!(config.usage, SurfaceUsage::RenderAttachment);
                assert_eq!(config.present_mode, PresentMode::AutoNoVsync);
                assert!(config.view_formats.is_empty());
            }
            other => panic!("expected a new configuration, got {other:?}"),
        }
    }
}

#[test]
fn other_surfaces_are_skipped() {
    let state = GpuSurfaceState {
        size: (640, 480),
        format: TextureFormat::Bgra8UnormSrgb,
    };
    let store = one_entity();
    for acquired in [Acquired::Occluded, Acquired::Timeout] {
        assert!(matches!(
            present_action(acquired, state, &store),
            PresentAction::Skip
        ));
    }
}

#[test]
fn a_mesh_is_made_only_when_its_tessellation_changes() {
    assert_eq!(mesh_to_create((32, 24), (32, 24)), None);
    assert_eq!(mesh_to_create((32, 24), (48, 32)), Some((48, 32)));
    assert_eq!(mesh_to_create((0, 0), (32, 24)), Some((32, 24)));
}

#[test]
fn presenting_needs_every_resource() {
    let all = PresentResources {
        device: true,
        queue: true,
        surface_state: true,
        surface: true,
        store: true,
        frame_state: true,
        mesh: true,
        command_buffers: true,
        present_target: true,
    };
    assert!(all.is_complete());
    assert!(!PresentResources {
        mesh: false,
        ..all
    }
    .is_complete());
}

#[test]
fn the_frame_is_uploaded_recorded_and_flushed_in_turn() {
    let levels = frame_systems().levels();
    let level_of = |system: usize| {
        levels
            .iter()
            .position(|l| l.contains(&system))
            .expect("system is scheduled")
    };
    assert!(level_of(0) < level_of(2), "mesh before present: {levels:?}");
    assert!(level_of(1) < level_of(2), "submit before present: {levels:?}");
    assert!(level_of(2) < level_of(3), "present before flush: {levels:?}");
}
