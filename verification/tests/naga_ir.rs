//! Declarations built as a module and printed.
use ornis_render::shaders::lighting_generated::lighting_resources;
use ornis_render::shaders::naga_ir::{
    add_global, camera_type, declaration_module, light_type, lighting_type, openpbr_type,
    spell_accesses, write_module,
};
use ornis_render::shaders::{Resource, ResourceKind, ShaderStages};

/// The lighting declarations: four types and ten globals.
#[test]
fn lighting_decls_round_trip_through_ir() {
    let mut module = declaration_module();
    let cam = camera_type(&mut module);
    let light = light_type(&mut module);
    let lighting = lighting_type(&mut module);
    let mat = openpbr_type(&mut module);
    // `Light` is only referenced from inside `Lighting`, never global.
    assert_eq!(
        module.types.iter().nth(light).and_then(|(_, t)| t.name.as_deref()),
        Some("Light")
    );
    let table = lighting_resources();
    for r in &table {
        let ty = match r.name {
            "camera" => cam,
            "lighting" => lighting,
            "materials" => mat,
            _ => cam,
        };
        add_global(&mut module, ty, r, false);
    }
    let wgsl = write_module(&module, &table).expect("the module validates and prints");
    for probe in [
        "struct Camera",
        "struct Light",
        "struct Lighting",
        "struct OpenPBRMaterial",
        "var<uniform> camera: Camera",
        "var<storage, read> materials: array<OpenPBRMaterial>",
        "var lighting_sampler: sampler",
    ] {
        assert!(wgsl.contains(probe), "missing {probe}:\n{wgsl}");
    }
    for r in &table {
        let decl = format!("@group({}) @binding({})", r.group, r.binding);
        assert!(wgsl.contains(decl.as_str()), "missing {decl}:\n{wgsl}");
    }
    assert!(naga::front::wgsl::parse_str(&wgsl).is_ok(), "{wgsl}");
}

/// Equal types are kept once, so indexes stay valid and do not multiply.
#[test]
fn equal_types_are_kept_once() {
    let mut module = declaration_module();
    let first = camera_type(&mut module);
    let count = module.types.len();
    assert_eq!(camera_type(&mut module), first);
    assert_eq!(module.types.len(), count);
}

/// Sizes and offsets in the module are those of the buffers.
#[test]
fn buffer_spans_match_the_layouts() {
    let mut module = declaration_module();
    let cam = camera_type(&mut module);
    let mat = openpbr_type(&mut module);
    let span = |index: usize| {
        module
            .types
            .iter()
            .nth(index)
            .map(|(_, t)| match &t.inner {
                naga::TypeInner::Struct { span, .. } => *span,
                _ => 0,
            })
            .expect("type exists")
    };
    assert_eq!(span(cam), 144);
    assert_eq!(span(mat), 320);
}

/// Globals of every kind: an address space for buffers, a handle for textures and samplers.
#[test]
fn globals_follow_their_kind() {
    let mut module = declaration_module();
    let cam = camera_type(&mut module);
    let table = lighting_resources();
    for r in &table {
        add_global(&mut module, cam, r, true);
    }
    let spaces: Vec<naga::AddressSpace> =
        module.global_variables.iter().map(|(_, g)| g.space).collect();
    assert_eq!(spaces.len(), 10);
    assert_eq!(spaces[0], naga::AddressSpace::Uniform);
    assert!(matches!(
        spaces[2],
        naga::AddressSpace::Storage {
            access: naga::StorageAccess::LOAD
        }
    ));
    assert_eq!(spaces[9], naga::AddressSpace::Handle);
    let multisampled = module.types.iter().any(|(_, t)| {
        matches!(
            t.inner,
            naga::TypeInner::Image {
                class: naga::ImageClass::Depth { multi: true },
                ..
            }
        )
    });
    assert!(multisampled);
}

/// Only storage buffers of the table get their access spelled out.
#[test]
fn accesses_are_spelled_for_storage_buffers() {
    let storage = Resource::new(
        0,
        ShaderStages::fragment(),
        "items",
        ResourceKind::StorageReadArray("Item"),
        None,
    );
    let spelled = spell_accesses(
        "var<storage> items: array<Item>;\nvar<storage> other: Other;\n".to_string(),
        &[storage],
    );
    assert_eq!(
        spelled,
        "var<storage, read> items: array<Item>;\nvar<storage> other: Other;\n"
    );
}
