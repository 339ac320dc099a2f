//! Extraction of drawable data from the entities of a scene.
use ornis_render::extraction::{extract_render_data, max_mesh_params, RenderWorld, DEFAULT_MESH_PARAMS};
use ornis_render::scene::{
    CameraDesc, EntityDesc, MaterialDesc, MeshDesc, Scene, TransformDesc,
};
use ornis_render::store::RenderStore;

fn bits<const N: usize>(values: [f32; N]) -> [u32; N] {
    values.map(f32::to_bits)
}

fn scene() -> Scene {
    Scene {
        name: "test".into(),
        entities: vec![EntityDesc {
            name: "sphere".into(),
            transform: TransformDesc {
                translation: bits([1.0, 2.0, 3.0]),
                rotation: bits([0.0, 0.0, 0.0, 1.0]),
                scale: bits([1.0, 1.0, 1.0]),
            },
            mesh: MeshDesc::Sphere {
                radius: 2.0f32.to_bits(),
                segments: 48,
                rings: 32,
            },
            material: MaterialDesc::Metal {
                base_color: bits([0.9, 0.8, 0.2]),
                roughness: 0.2f32.to_bits(),
            },
        }],
        lights: Vec::new(),
        camera: CameraDesc {
            position: bits([0.0, 2.5, 9.0]),
            target: bits([0.0, 0.0, 0.0]),
            up: bits([0.0, 1.0, 0.0]),
            fov: 60.0f32.to_bits(),
            near: 0.1f32.to_bits(),
            far: 100.0f32.to_bits(),
        },
        ambient: bits([0.1, 0.1, 0.1]),
    }
}

#[test]
fn render_world_runs_shared_engine_extraction() {
    let mut world = RenderWorld::from_scene(&scene());
    assert_eq!(world.entity_count(), 1);
    world.run_frame();

    let extracted = world.extracted();
    assert_eq!(extracted.mesh_params, (48, 32));
    assert_eq!(extracted.materials.len(), 1);
    assert_eq!(extracted.instances.len(), 1);
    assert_eq!(extracted.instances[0].material_index, 0);
    assert_eq!(
        extracted.instances[0].transform.translation,
        bits([1.0, 2.0, 3.0])
    );
}

#[test]
fn replacing_scene_destroys_previous_entities_before_extraction() {
    let mut world = RenderWorld::from_scene(&scene());
    let empty = Scene {
        entities: Vec::new(),
        ..scene()
    };
    world.replace_scene(&empty);
    world.run_frame();

    assert_eq!(world.entity_count(), 0);
    assert!(world.extracted().instances.is_empty());
}

#[test]
fn direct_lane_read_is_byte_equal_to_scheduled_snapshot() {
    // A direct read of the components equals the snapshot that the frame published.
    let varied = Scene {
        name: "oracle".into(),
        entities: vec![
            EntityDesc {
                name: "dielectric".into(),
                transform: TransformDesc {
                    translation: bits([1.0, 2.0, 3.0]),
                    rotation: bits([0.0, 0.0, 0.0, 1.0]),
                    scale: bits([1.0, 1.0, 1.0]),
                },
                mesh: MeshDesc::Sphere {
                    radius: 2.0f32.to_bits(),
                    segments: 24,
                    rings: 16,
                },
                material: MaterialDesc::Dielectric {
                    base_color: bits([0.8, 0.2, 0.2]),
                    roughness: 0.4f32.to_bits(),
                },
            },
            EntityDesc {
                name: "metal".into(),
                transform: TransformDesc {
                    translation: bits([-1.0, 0.0, 2.0]),
                    rotation: bits([0.0, 0.0, 0.0, 1.0]),
                    scale: bits([2.0, 2.0, 2.0]),
                },
                mesh: MeshDesc::Sphere {
                    radius: 0.5f32.to_bits(),
                    segments: 48,
                    rings: 32,
                },
                material: MaterialDesc::Metal {
                    base_color: bits([0.9, 0.8, 0.2]),
                    roughness: 0.2f32.to_bits(),
                },
            },
            EntityDesc {
                name: "coat".into(),
                transform: TransformDesc {
                    translation: bits([0.0, 5.0, -3.0]),
                    rotation: bits([0.3, 0.2, 0.1, 0.9]),
                    scale: bits([1.0, 1.0, 1.0]),
                },
                mesh: MeshDesc::Sphere {
                    radius: 1.0f32.to_bits(),
                    segments: 32,
                    rings: 24,
                },
                material: MaterialDesc::Coat {
                    base_color: bits([0.2, 0.4, 0.9]),
                    coat_weight: 0.7f32.to_bits(),
                    coat_roughness: 0.1f32.to_bits(),
                },
            },
        ],
        lights: Vec::new(),
        camera: CameraDesc {
            position: bits([0.0, 2.5, 9.0]),
            target: bits([0.0, 0.0, 0.0]),
            up: bits([0.0, 1.0, 0.0]),
            fov: 60.0f32.to_bits(),
            near: 0.1f32.to_bits(),
            far: 100.0f32.to_bits(),
        },
        ambient: bits([0.1, 0.1, 0.1]),
    };
    let mut world = RenderWorld::from_scene(&varied);
    world.run_frame();

    let snapshot = world.extracted();
    let direct = extract_render_data(world.store());
    assert_eq!(snapshot.mesh_params, (48, 32));
    assert_eq!(snapshot.instances.len(), 3);
    assert_eq!(direct.mesh_params, snapshot.mesh_params);
    assert_eq!(direct.instances.len(), snapshot.instances.len());
    for (direct, snapshot) in direct.instances.iter().zip(&snapshot.instances) {
        assert_eq!(direct.transform, snapshot.transform);
        assert_eq!(direct.radius, snapshot.radius);
        assert_eq!(direct.material_index, snapshot.material_index);
    }
    assert_eq!(direct.materials.len(), snapshot.materials.len());
    for (direct, snapshot) in direct.materials.iter().zip(&snapshot.materials) {
        assert_eq!(direct, snapshot);
    }
}

#[test]
fn incomplete_entities_are_skipped() {
    let mut world = RenderWorld::new();
    let entity = world.store_mut().create_entity();
    world.store_mut().insert_transform(
        entity,
        TransformDesc {
            translation: bits([0.0, 0.0, 0.0]),
            rotation: bits([0.0, 0.0, 0.0, 1.0]),
            scale: bits([1.0, 1.0, 1.0]),
        },
    );
    world.run_frame();
    assert!(extract_render_data(world.store()).instances.is_empty());
    assert!(world.extracted().instances.is_empty());
}

#[test]
fn max_mesh_params_is_the_extraction_mesh_canon() {
    // The largest tessellation counts complete entities only: the incomplete one (96, 64) does
    // not move it.
    let complete = Scene {
        name: "canon".into(),
        entities: vec![
            EntityDesc {
                name: "fine".into(),
                transform: TransformDesc {
                    translation: bits([0.0, 0.0, 0.0]),
                    rotation: bits([0.0, 0.0, 0.0, 1.0]),
                    scale: bits([1.0, 1.0, 1.0]),
                },
                mesh: MeshDesc::Sphere {
                    radius: 1.0f32.to_bits(),
                    segments: 48,
                    rings: 32,
                },
                material: MaterialDesc::Metal {
                    base_color: bits([0.9, 0.8, 0.2]),
                    roughness: 0.2f32.to_bits(),
                },
            },
            EntityDesc {
                name: "coarse".into(),
                transform: TransformDesc {
                    translation: bits([2.0, 0.0, 0.0]),
                    rotation: bits([0.0, 0.0, 0.0, 1.0]),
                    scale: bits([1.0, 1.0, 1.0]),
                },
                mesh: MeshDesc::Sphere {
                    radius: 1.0f32.to_bits(),
                    segments: 16,
                    rings: 12,
                },
                material: MaterialDesc::Dielectric {
                    base_color: bits([0.2, 0.8, 0.2]),
                    roughness: 0.5f32.to_bits(),
                },
            },
        ],
        lights: Vec::new(),
        camera: CameraDesc {
            position: bits([0.0, 2.5, 9.0]),
            target: bits([0.0, 0.0, 0.0]),
            up: bits([0.0, 1.0, 0.0]),
            fov: 60.0f32.to_bits(),
            near: 0.1f32.to_bits(),
            far: 100.0f32.to_bits(),
        },
        ambient: bits([0.1, 0.1, 0.1]),
    };
    let mut world = RenderWorld::from_scene(&complete);
    // Incomplete entity: mesh + material without a transform lane
    // entry — a high tessellation that must NOT move the maximum.
    let store = world.store_mut();
    let incomplete = store.create_entity();
    store.insert_mesh(
        incomplete,
        MeshDesc::Sphere {
            radius: 1.0f32.to_bits(),
            segments: 96,
            rings: 64,
        },
    );
    store.insert_material(
        incomplete,
        MaterialDesc::Coat {
            base_color: bits([0.2, 0.4, 0.9]),
            coat_weight: 0.7f32.to_bits(),
            coat_roughness: 0.1f32.to_bits(),
        },
    );
    world.run_frame();

    let store = world.store();
    let extracted = extract_render_data(store);
    assert_eq!(extracted.mesh_params, (48, 32));
    assert_eq!(max_mesh_params(store), extracted.mesh_params);
}

#[test]
fn an_empty_world_extracts_nothing() {
    let mut world = RenderWorld::new();
    world.run_frame();
    assert_eq!(world.extracted().mesh_params, DEFAULT_MESH_PARAMS);
    assert!(world.extracted().materials.is_empty());
    assert_eq!(max_mesh_params(world.store()), (32, 24));
}

#[test]
fn coarse_meshes_do_not_lower_the_tessellation() {
    let mut world = RenderWorld::from_scene(&scene());
    let entity = world.entities()[0];
    world.store_mut().insert_mesh(
        entity,
        MeshDesc::Sphere {
            radius: 1.0f32.to_bits(),
            segments: 8,
            rings: 40,
        },
    );
    world.run_frame();
    assert_eq!(world.extracted().mesh_params, (32, 40));
}

#[test]
fn materials_follow_the_instances() {
    let mut two = scene();
    two.entities.push(EntityDesc {
        name: "second".into(),
        transform: two.entities[0].transform,
        mesh: two.entities[0].mesh,
        material: MaterialDesc::Dielectric {
            base_color: bits([0.1, 0.2, 0.3]),
            roughness: 0.5f32.to_bits(),
        },
    });
    let mut world = RenderWorld::from_scene(&two);
    world.run_frame();
    let extracted = world.extracted();
    assert_eq!(extracted.instances.len(), 2);
    assert_eq!(extracted.instances[1].material_index, 1);
    assert_eq!(extracted.materials[1], two.entities[1].material);
}

#[test]
fn destroying_an_entity_removes_its_components() {
    let mut store = RenderStore::new();
    let first = store.create_entity();
    let second = store.create_entity();
    assert_ne!(first, second);
    store.insert_mesh(
        first,
        MeshDesc::Sphere {
            radius: 1.0f32.to_bits(),
            segments: 8,
            rings: 6,
        },
    );
    assert_eq!(store.meshes().len(), 1);
    store.destroy_entity(first);
    assert!(!store.is_alive(first));
    assert!(store.is_alive(second));
    assert_eq!(store.meshes().len(), 0);
    assert!(store.meshes().get(first).is_none());
}
