//! Buffer contents, bindings and materials.
use ornis_render::bindings::{bloom_params, pass_inputs, scene_inputs, BloomUniform, Bound};
use ornis_render::declarations::{ResourceId, TextureFormat};
use ornis_render::frame_exec::RenderFrame3D;
use ornis_render::frame_wiring::Technique;
use ornis_render::material::{material_to_gpu, Material, MaterialPresets, MaterialRecord};
use ornis_render::scene::MaterialDesc;
use ornis_render::system::PassBody;
use ornis_render::uploads::{
    bloom_words, buffer_bytes, camera_words, instance_words, lighting_words, material_words, GpuLight,
    InstanceData,
};

fn bits<const N: usize>(values: [f32; N]) -> [u32; N] {
    values.map(f32::to_bits)
}

fn floats(words: &[u32]) -> Vec<f32> {
    words.iter().map(|w| f32::from_bits(*w)).collect()
}

fn light(k: u32) -> GpuLight {
    GpuLight {
        direction: bits([0.0, 0.0, 1.0]),
        intensity: (k as f32).to_bits(),
        color: bits([0.25, 0.5, 0.75]),
    }
}

#[test]
fn the_camera_buffer_ends_with_the_eye() {
    let words = camera_words(&[1; 16], &[2; 16], &bits([3.0, 4.0, 5.0]));
    assert_eq!(words.len(), 36);
    assert_eq!(words[15], 1);
    assert_eq!(words[16], 2);
    assert_eq!(floats(&words[32..]), vec![3.0, 4.0, 5.0, 1.0]);
}

#[test]
fn the_lighting_buffer_holds_four_lights() {
    let words = lighting_words(&bits([0.1, 0.2, 0.3]), &vec![light(7)]);
    assert_eq!(words.len(), 40);
    assert_eq!(floats(&words[..4]), vec![0.1, 0.2, 0.3, 1.0]);
    assert_eq!(
        floats(&words[4..12]),
        vec![0.0, 0.0, 1.0, 0.0, 0.25, 0.5, 0.75, 7.0]
    );
    assert!(words[12..36].iter().all(|w| *w == 0));
    assert_eq!(words[36..], [1, 0, 0, 0]);

    let five = lighting_words(&bits([0.0; 3]), &(0..5).map(light).collect());
    assert_eq!(five.len(), 40);
    assert_eq!(floats(&five[35..36]), vec![3.0]);
    assert_eq!(five[36], 4);
}

#[test]
fn the_instance_buffer_is_packed_and_capped() {
    let instance = |k: u32| InstanceData {
        model_matrix: [k; 16],
        normal_matrix: [k + 1; 16],
        material_index: k,
    };
    let words = instance_words(&vec![instance(5), instance(9)]);
    assert_eq!(words.len(), 72);
    assert_eq!(words[0], 5);
    assert_eq!(words[16], 6);
    assert_eq!(words[32..36], [5, 0, 0, 0]);
    assert_eq!(words[36 + 32], 9);
    assert_eq!(instance_words(&(0..300).map(instance).collect()).len(), 36 * 256);
}

fn record(seed: u32) -> MaterialRecord {
    let mut slots = [[0; 4]; 20];
    for (k, slot) in slots.iter_mut().enumerate() {
        *slot = [seed, k as u32, 0, seed + 1];
    }
    MaterialRecord { slots }
}

#[test]
fn the_material_buffer_is_packed_and_capped() {
    let words = material_words(&vec![record(3), record(4)]);
    assert_eq!(words.len(), 160);
    assert_eq!(words[4 * 7..4 * 8], [3, 7, 0, 4]);
    assert_eq!(words[80 + 4 * 19..], [4, 19, 0, 5]);
    assert_eq!(material_words(&vec![record(0); 100]).len(), 80 * 64);
}

#[test]
fn bloom_parameters_are_padded() {
    let params = bloom_params(PassBody::BloomBright {
        from_forward: false,
    })
    .expect("the bright pass writes its threshold");
    assert_eq!(floats(&bloom_words(params)), vec![0.7, 0.0, 0.0, 0.0]);
    assert_eq!(
        bloom_words(BloomUniform::default()),
        vec![0, 1.0f32.to_bits(), 0, 0]
    );
}

#[test]
fn parameters_follow_the_pass() {
    let one = 1.0f32.to_bits();
    assert_eq!(
        bloom_params(PassBody::Composite {
            shader_mode: 2,
            bloom: true
        }),
        Some(BloomUniform {
            threshold: 0,
            intensity: one,
            mode: 2
        })
    );
    assert_eq!(
        bloom_params(PassBody::Composite {
            shader_mode: 1,
            bloom: false
        }),
        Some(BloomUniform {
            threshold: 0,
            intensity: 0,
            mode: 1
        })
    );
    assert_eq!(bloom_params(PassBody::BloomUp), None);
    assert_eq!(bloom_params(PassBody::Gbuffer), None);
}

#[test]
fn passes_are_bound_to_what_they_declare() {
    for technique in [Technique::Forward, Technique::Deferred, Technique::Hybrid] {
        for bloom in [false, true] {
            let mut frame =
                RenderFrame3D::new_with(TextureFormat::Rgba8Unorm, (64, 64), technique, bloom);
            let layout = frame.systems_mut().build();
            for pass in &layout.passes {
                let body = frame.systems().pass_body(pass.id).expect("typed pass");
                let inputs = pass_inputs(body, &pass.reads, &pass.writes);
                for bound in &inputs.bound {
                    if let Bound::View(id) = bound {
                        assert!(pass.reads.contains(id), "{}", pass.name);
                    }
                }
                for id in &inputs.colors {
                    assert!(pass.writes.iter().any(|(w, _)| w == id), "{}", pass.name);
                }
                for id in &pass.reads {
                    assert!(
                        inputs.bound.contains(&Bound::View(*id)) || inputs.depth == Some(*id),
                        "{}",
                        pass.name
                    );
                }
            }
        }
    }
}

#[test]
fn the_lighting_pass_samples_the_gbuffer_in_binding_order() {
    let reads: Vec<ResourceId> = (0..6).map(ResourceId).collect();
    let inputs = pass_inputs(PassBody::Lighting, &reads, &vec![(ResourceId(6), None)]);
    assert_eq!(inputs.bound.len(), 10);
    assert_eq!(inputs.bound[3], Bound::View(ResourceId(0)));
    assert_eq!(inputs.bound[8], Bound::View(ResourceId(5)));
    assert_eq!(inputs.bound[9], Bound::Sampler);
    assert_eq!(inputs.colors, vec![ResourceId(6)]);
    assert_eq!(inputs.depth, None);
}

#[test]
fn descriptions_override_their_preset() {
    let presets = MaterialPresets {
        dielectric: record(10),
        metal: record(20),
        coat: record(30),
    };
    let metal = material_to_gpu(
        MaterialDesc::Metal {
            base_color: [1, 2, 3],
            roughness: 4,
        },
        &presets,
    );
    assert_eq!(metal.slots[1], [1, 2, 3, 21]);
    assert_eq!(metal.slots[2], [20, 4, 0, 21]);
    assert_eq!(metal.slots[12], [20, 12, 0, 21]);
    let coat = material_to_gpu(
        MaterialDesc::Coat {
            base_color: [1, 2, 3],
            coat_weight: 5,
            coat_roughness: 6,
        },
        &presets,
    );
    assert_eq!(coat.slots[12], [5, 6, 0, 31]);
    assert_eq!(coat.slots[2], [30, 2, 0, 31]);
    let dielectric = material_to_gpu(
        MaterialDesc::Dielectric {
            base_color: [1, 2, 3],
            roughness: 4,
        },
        &presets,
    );
    assert_eq!(dielectric.slots[0], [10, 0, 0, 11]);
    assert_eq!(dielectric.slots[2][1], 4);
}

#[test]
fn materials_read_back_what_was_set() {
    let mut m = Material::default();
    assert_eq!(m.base_color, bits([0.8, 0.8, 0.8, 1.0]));
    assert_eq!(m.roughness(), 0.5f32.to_bits());
    assert_eq!(m.metalness(), 0);
    assert_eq!(m.specular_weight(), 1.0f32.to_bits());
    assert_eq!(m.specular_ior(), 1.5f32.to_bits());
    m.set_metalness(1);
    m.set_roughness(2);
    m.set_specular_weight(3);
    m.set_coat_weight(4);
    m.set_specular_ior(5);
    assert_eq!(m.pbr_params, [1, 2, 3, 4]);
    m.set_subsurface(6, [7, 8, 9]);
    m.set_sheen(10, [11, 12, 13]);
    m.set_coat(14, [15, 16, 17], 18);
    m.set_emission([19, 20, 21], 22);
    assert_eq!(m.ior_params, [5, 6, 10, 18]);
    assert_eq!(m.subsurface_color, [7, 8, 9, 0]);
    assert_eq!(m.sheen_color, [11, 12, 13, 0]);
    assert_eq!(m.coat_color, [15, 16, 17, 0]);
    assert_eq!(m.emission_color, [19, 20, 21, 22]);
    assert_eq!(
        (m.coat_weight(), m.subsurface_weight(), m.sheen_weight(), m.coat_roughness()),
        (14, 6, 10, 18)
    );
}

#[test]
fn buffers_are_uploaded_in_the_order_of_the_machine() {
    let words = vec![1, 0x0203_0405];
    let expected: Vec<u8> = words.iter().flat_map(|w: &u32| w.to_ne_bytes()).collect();
    assert_eq!(buffer_bytes(&words), expected.as_slice());
    assert!(buffer_bytes(&Vec::new()).is_empty());
}

#[test]
fn the_scene_has_the_lit_image_for_its_bloom_layer() {
    let (lit, forward, target) = (ResourceId(6), ResourceId(7), ResourceId(8));
    let body = PassBody::Composite {
        shader_mode: 2,
        bloom: false,
    };
    let inputs = scene_inputs(body, &vec![lit, forward], &vec![(target, None)]);
    assert_eq!(
        inputs.bound,
        vec![
            Bound::View(lit),
            Bound::View(forward),
            Bound::Sampler,
            Bound::View(lit),
            Bound::BloomParams,
        ]
    );
    assert_eq!(inputs.colors, vec![target]);
    // A planned hybrid frame reads its forward layer there.
    let planned = pass_inputs(body, &vec![lit, forward], &vec![(target, None)]);
    assert_eq!(planned.bound[3], Bound::View(forward));
}
