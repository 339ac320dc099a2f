//! Text pieces: decimals, trimming, joining, replacing, and module assembly.
use ornis_render::shaders::assembly::{wgsl_decl, ShaderModule};
use ornis_render::shaders::buffer_layouts::{self, struct_layout, struct_source};
use ornis_render::shaders::quad::{const_array, STANDARD_UVS};
use ornis_render::shaders::{
    bgl_entries, bind_group_entries, bloom_generated, resource_decls, BindingType,
    BufferBindingType, Resource, ResourceKind, ShaderStages,
};
use ornis_render::text::{join, push_decimal, replace, trim_end, trim_newlines};

#[test]
fn decimals() {
    let mut out = String::from("n=");
    push_decimal(&mut out, 0);
    push_decimal(&mut out, 90);
    push_decimal(&mut out, u64::MAX);
    assert_eq!(out, "n=09018446744073709551615");
}

#[test]
fn trimming_and_joining() {
    assert_eq!(trim_end("struct A {}\n \t"), "struct A {}");
    assert_eq!(trim_end(" \u{a0}\u{3000}"), "");
    assert_eq!(trim_newlines("\n\na\nb \n"), "a\nb ");
    assert_eq!(trim_newlines("\n\n"), "");
    let parts = vec!["a".to_string(), "b".to_string(), "c".to_string()];
    assert_eq!(join(&parts, ", "), "a, b, c");
    assert_eq!(join(&Vec::new(), ", "), "");
}

#[test]
fn replacing_goes_from_left_to_right_without_overlap() {
    assert_eq!(replace("aaaa", "aa", "b"), "bb");
    assert_eq!(replace("aaa", "aa", "b"), "ba");
    assert_eq!(replace("abc", "x", "y"), "abc");
    assert_eq!(replace("", "x", "y"), "");
    for (hay, needle, by) in [
        ("var<storage> a; var<storage> b;", "var<storage> a", "var<storage, read> a"),
        ("abcabc", "bca", "-"),
        ("\u{e9}\u{e9}x", "\u{e9}", ""),
    ] {
        assert_eq!(replace(hay, needle, by), hay.replace(needle, by));
    }
}

#[test]
fn declarations_are_closed() {
    assert_eq!(wgsl_decl("struct A {\n}\n"), "struct A {\n};\n");
}

#[test]
fn modules_emit_sections_in_order() {
    let module = ShaderModule::new()
        .entry("fn main() {}\n")
        .helper("\nfn helper() {}")
        .consts("const A: u32 = 1u;")
        .decl("struct A {}")
        .helpers(vec!["fn second() {}".to_string(), "\n\n".to_string()]);
    assert_eq!(
        module.emit(),
        "\nstruct A {}\nconst A: u32 = 1u;\nfn helper() {}\nfn second() {}\nfn main() {}\n"
    );
    assert_eq!(ShaderModule::default().emit(), "\n");
}

#[test]
fn the_order_of_calls_does_not_matter() {
    let table = bloom_generated::bloom_resources();
    let early = ShaderModule::new()
        .resources(&table, &[0, 2])
        .entry("fn main() {}")
        .emit();
    let late = ShaderModule::new()
        .entry("\nfn main() {}\n")
        .resources(&table, &[0, 2])
        .emit();
    assert_eq!(early, late);
    assert!(early.contains("@group(0) @binding(2) var<uniform> bloom_params: BloomParams;\n"));
}

#[test]
fn resource_declarations_follow_the_listed_bindings() {
    let table = bloom_generated::bloom_resources();
    assert_eq!(
        resource_decls(&table, &[1, 0]),
        "@group(0) @binding(1) var src_sampler: sampler;\n\
         @group(0) @binding(0) var src_tex: texture_2d<f32>;\n"
    );
    assert_eq!(resource_decls(&table, &[]), "");
}

#[test]
fn layout_entries_follow_the_rows() {
    let entries = bgl_entries(&bloom_generated::bloom_resources(), false);
    assert_eq!(entries.len(), 3);
    assert_eq!(
        entries[2].ty,
        BindingType::Buffer {
            ty: BufferBindingType::Uniform,
            has_dynamic_offset: false,
            min_binding_size: Some(16),
        }
    );
    let storage = Resource::new(
        7,
        ShaderStages::vertex(),
        "objects",
        ResourceKind::StorageReadArray("Object"),
        None,
    );
    assert_eq!(
        bgl_entries(&[storage], true)[0].ty,
        BindingType::Buffer {
            ty: BufferBindingType::Storage { read_only: true },
            has_dynamic_offset: false,
            min_binding_size: None,
        }
    );
}

#[test]
fn bind_groups_ask_for_every_row_once() {
    let entries = bind_group_entries(&bloom_generated::bloom_resources(), |r: &Resource| r.name);
    let pairs: Vec<(u32, &str)> = entries.iter().map(|e| (e.binding, e.resource)).collect();
    assert_eq!(
        pairs,
        vec![(0, "src_tex"), (1, "src_sampler"), (2, "bloom_params")]
    );
}

#[test]
fn buffers_are_laid_out_by_alignment() {
    assert_eq!(struct_layout(&buffer_layouts::CAMERA), (vec![0, 64, 128], 144));
    assert_eq!(
        struct_layout(&buffer_layouts::PER_OBJECT),
        (vec![0, 64, 128], 144)
    );
    assert_eq!(struct_layout(&buffer_layouts::LIGHTING), (vec![0, 16, 144], 160));
    assert_eq!(struct_layout(&buffer_layouts::BLOOM), (vec![0, 4, 8], 12));
    assert_eq!(
        struct_source(buffer_layouts::LIGHT_NAME, &buffer_layouts::LIGHT),
        "struct Light {\n    direction: vec4<f32>,\n    color: vec4<f32>,\n}\n"
    );
}

#[test]
fn constant_arrays_are_spelled_with_floats() {
    assert_eq!(
        const_array("UVS", "vec2<f32>", &STANDARD_UVS[..1]),
        "const UVS: array<vec2<f32>, 1> = array<vec2<f32>, 1>(\n    vec2<f32>(0.0, 1.0),\n);\n"
    );
}

#[test]
fn stages_contain_each_other() {
    assert!(ShaderStages::vertex_fragment().contains(ShaderStages::vertex()));
    assert!(!ShaderStages::vertex().contains(ShaderStages::fragment()));
    assert!(!ShaderStages::fragment().contains(ShaderStages::vertex_fragment()));
}
