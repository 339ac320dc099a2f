//! What the stage entry points read, call and construct, against the definitions in their modules.
use ornis_render::shaders::{
    bloom_generated, buffer_layouts, composite_generated, gbuffer_generated,
    hdr_composite_generated, interface, lighting_generated, openpbr, pbr_generated, Resource,
    ShaderStages,
};

/// Names of the members of an interface.
fn members(fields: &[(&'static str, &'static str, &'static str)]) -> Vec<&'static str> {
    fields.iter().map(|(_, name, _)| *name).collect()
}

/// Names of the members of a buffer.
fn fields(layout: &[(&'static str, buffer_layouts::FieldType)]) -> Vec<&'static str> {
    layout.iter().map(|(name, _)| *name).collect()
}

/// Built-in functions.
const BUILTINS: &[&str] = &[
    "abs", "acos", "all", "any", "clamp", "cos", "cross", "dot", "exp", "floor", "fract", "length",
    "log", "max", "min", "mix", "normalize", "pow", "reflect", "refract", "select", "sign", "sin",
    "smoothstep", "sqrt", "step",
];

/// Type constructors.
const TYPES: &[&str] = &["f32", "i32", "u32", "bool"];

/// `(Type, [field names])` of every `Type(args) /* f1, f2 */` constructor.
fn extract_ctors(src: &str) -> Vec<(String, Vec<String>)> {
    let mut out = Vec::new();
    let mut rest = src;
    while let Some(cstart) = rest.find("/* ") {
        let before = rest[..cstart].trim_end();
        let Some(cend) = rest[cstart..].find("*/") else {
            break;
        };
        let names: Vec<String> = rest[cstart + 3..cstart + cend]
            .split(',')
            .map(|s| s.trim().to_string())
            .collect();
        // Walk back balanced parens from the ')' ending `before` to the
        // constructor's opening paren; the identifier before it is the type.
        if before.ends_with(')') {
            let mut depth = 0u32;
            let mut open = None;
            for (i, ch) in before.char_indices().rev() {
                match ch {
                    ')' => depth += 1,
                    '(' => {
                        depth -= 1;
                        if depth == 0 {
                            open = Some(i);
                            break;
                        }
                    }
                    _ => {}
                }
            }
            if let Some(i) = open {
                let ident: String = before[..i]
                    .chars()
                    .rev()
                    .take_while(|c| c.is_alphanumeric() || *c == '_')
                    .collect::<String>()
                    .chars()
                    .rev()
                    .collect();
                if !ident.is_empty() {
                    out.push((ident, names));
                }
            }
        }
        rest = &rest[cstart + cend + 2..];
    }
    out
}

#[test]
fn interface_field_order() {
    let mirrors: Vec<(&str, Vec<&str>)> = vec![
        (
            interface::HDR_VERTEX_OUTPUT_NAME,
            members(&interface::HDR_VERTEX_OUTPUT),
        ),
        (
            interface::HDR_FRAGMENT_OUT_NAME,
            members(&interface::HDR_FRAGMENT_OUT),
        ),
        (
            interface::BLOOM_VERTEX_OUT_NAME,
            members(&interface::BLOOM_VERTEX_OUT),
        ),
        (
            interface::UI_COMPOSITE_OUT_NAME,
            members(&interface::UI_COMPOSITE_OUT),
        ),
        (
            interface::GBUFFER_VERTEX_OUTPUT_NAME,
            members(&interface::GBUFFER_VERTEX_OUTPUT),
        ),
    ];
    let entries: [String; 5] = [
        hdr_composite_generated::vertex_entry(),
        bloom_generated::vertex_entry(),
        lighting_generated::vertex_entry(),
        composite_generated::vertex_entry(composite_generated::VERTEX_ENTRY_POINT),
        gbuffer_generated::vertex_entry(),
    ];
    let mut checked = 0;
    for src in &entries {
        for (ty, names) in extract_ctors(src) {
            let fields = mirrors
                .iter()
                .find(|(n, _)| *n == ty)
                .unwrap_or_else(|| panic!("constructor {ty} has no registered mirror"));
            assert_eq!(
                names, fields.1,
                "struct literal {ty} lists fields out of mirror order"
            );
            checked += 1;
        }
    }
    // Three vertex entries construct varyings positionally today (the
    // rest use the `var`-out form); zero hits would mean the comments
    // vanished and the test passes vacuously.
    assert!(checked >= 3, "expected struct literals, found {checked}");
}

#[test]
fn stage_globals_declared() {
    let hdr_vertex = hdr_composite_generated::wgsl_vertex_source();
    let hdr_fragment = hdr_composite_generated::wgsl_source();
    let bloom = bloom_generated::wgsl_source();
    let lighting = lighting_generated::wgsl_source();
    let lighting_vertex = lighting_generated::wgsl_vertex_source();
    let composite = composite_generated::wgsl_source();
    let gbuffer_vertex = gbuffer_generated::wgsl_vertex_source();
    let gbuffer_fragment = gbuffer_generated::wgsl_source();
    let pbr = pbr_generated::wgsl_source();
    // (bundle/entry globals, assemblies containing them). QuadConsts is
    // shared by five vertex entries, so it pins against all five
    // assemblies carrying the quad constants.
    let pairs: &[(&[&str], Vec<String>)] = &[
        (
            &hdr_composite_generated::VERTEX_GLOBALS,
            vec![
                hdr_vertex.clone(),
                hdr_fragment.clone(),
                bloom.clone(),
                lighting_vertex.clone(),
                composite.clone(),
            ],
        ),
        (
            &hdr_composite_generated::FRAGMENT_GLOBALS,
            vec![hdr_fragment],
        ),
        (&bloom_generated::FRAGMENT_GLOBALS, vec![bloom]),
        (
            &lighting_generated::FRAGMENT_GLOBALS,
            vec![lighting.clone()],
        ),
        (&lighting_generated::FRAGMENT_MAPS, vec![lighting]),
        (
            &composite_generated::FRAGMENT_GLOBALS,
            vec![composite],
        ),
        (
            &gbuffer_generated::VERTEX_GLOBALS,
            vec![gbuffer_vertex],
        ),
        (
            &gbuffer_generated::FRAGMENT_GLOBALS,
            vec![gbuffer_fragment],
        ),
        (&pbr_generated::FRAGMENT_GLOBALS, vec![pbr]),
    ];
    let mut checked = 0;
    for (globals, assemblies) in pairs {
        assert!(!globals.is_empty(), "bundle must declare its globals");
        for global in *globals {
            assert!(
                assemblies.iter().any(|src| src.contains(global)),
                "global `{global}` declared by a bundle is missing from its assembled shader"
            );
            checked += 1;
        }
    }
    // Seven bundles plus one lone `global` param declare 30 names today;
    // fewer means a declaration was dropped and the test passes vacuously.
    assert!(
        checked >= 30,
        "expected global declarations, found {checked}"
    );
}

#[test]
fn every_field_use_resolves() {
    fn is_swizzle(field: &str) -> bool {
        field.len() <= 4 && field.chars().all(|c| "xyzwrgba".contains(c))
    }

    // (entry source, members of its input, members of its output)
    struct Entry {
        src: String,
        input: Option<Vec<&'static str>>,
        output: Option<Vec<&'static str>>,
    }
    let entries = [
        Entry {
            src: composite_generated::vertex_entry(composite_generated::VERTEX_ENTRY_POINT),
            input: None,
            output: Some(members(&interface::UI_COMPOSITE_OUT)),
        },
        Entry {
            src: composite_generated::fragment_entry(composite_generated::FRAGMENT_ENTRY_POINT),
            input: Some(members(&interface::UI_COMPOSITE_OUT)),
            output: None,
        },
        Entry {
            src: gbuffer_generated::vertex_entry(),
            input: Some(members(&interface::GBUFFER_VERTEX_INPUT)),
            output: Some(members(&interface::GBUFFER_VERTEX_OUTPUT)),
        },
        Entry {
            src: gbuffer_generated::fragment_entry(),
            input: Some(members(&interface::GBUFFER_FRAGMENT_INPUT)),
            output: Some(members(&interface::GBUFFER_OUTPUT)),
        },
        Entry {
            src: pbr_generated::fs_main(),
            input: Some(members(&interface::GBUFFER_FRAGMENT_INPUT)),
            output: None,
        },
        Entry {
            src: hdr_composite_generated::vertex_entry(),
            input: None,
            output: None,
        },
        Entry {
            src: hdr_composite_generated::fragment_entry(),
            input: Some(members(&interface::HDR_FRAGMENT_OUT)),
            output: None,
        },
        Entry {
            src: bloom_generated::vertex_entry(),
            input: None,
            output: None,
        },
        Entry {
            src: bloom_generated::fragment_entry(),
            input: Some(members(&interface::BLOOM_VERTEX_OUT)),
            output: None,
        },
        Entry {
            src: lighting_generated::vertex_entry(),
            input: None,
            output: None,
        },
        Entry {
            src: lighting_generated::fragment_entry(),
            input: Some(members(&interface::HDR_FRAGMENT_OUT)),
            output: None,
        },
    ];
    // Shared roots: uniform buffers by layout, materials by slot list.
    let shared: Vec<(&str, Vec<&str>)> = vec![
        ("camera", fields(&buffer_layouts::CAMERA)),
        ("lighting", fields(&buffer_layouts::LIGHTING)),
        ("bloom_params", fields(&buffer_layouts::BLOOM)),
        ("mat", openpbr::OPENPBR_SLOTS.to_vec()),
        ("obj", fields(&buffer_layouts::PER_OBJECT)),
    ];
    let mut checked = 0;
    for (n, entry) in entries.iter().enumerate() {
        let mut roots = shared.clone();
        if let Some(fields) = &entry.input {
            roots.push(("input", fields.clone()));
        }
        if let Some(fields) = &entry.output {
            // `var`-out locals are spelled `out` (composite) or
            // `output` (g-buffer); both resolve to the output mirror.
            roots.push(("out", fields.clone()));
            roots.push(("output", fields.clone()));
        }
        let mut rest = entry.src.as_str();
        while let Some(dot) = rest.find('.') {
            let before = &rest[..dot];
            let root: String = before
                .chars()
                .rev()
                .take_while(|c| c.is_alphanumeric() || *c == '_')
                .collect::<String>()
                .chars()
                .rev()
                .collect();
            let after = &rest[dot + 1..];
            let field: String = after
                .chars()
                .take_while(|c| c.is_alphanumeric() || *c == '_')
                .collect();
            if !root.is_empty() && !field.is_empty() && !is_swizzle(&field) {
                // Float literals (`0.0`) look like `root.field` to the
                // scanner; numeric roots are never field uses.
                if root.starts_with(|c: char| c.is_ascii_digit()) {
                    rest = after;
                    continue;
                }
                let (_, fields) = roots
                    .iter()
                    .find(|(r, _)| *r == root)
                    .unwrap_or_else(|| panic!("entry {n}: unresolved root `{root}.{field}`"));
                assert!(
                    fields.contains(&field.as_str()),
                    "entry {n}: `{root}` has no field `{field}`"
                );
                checked += 1;
            }
            rest = after;
        }
    }
    // Eleven entries, 143 resolved uses; fewer means the
    // extraction broke or coverage was dropped: update deliberately.
    assert!(checked >= 143, "expected field uses, found {checked}");
}

#[test]
fn stage_calls_resolve() {
    fn callee_uses(src: &str) -> Vec<(String, usize)> {
        // `name(` occurrences with their byte offset (for messages).
        let mut out = Vec::new();
        let bytes = src.as_bytes();
        let mut i = 0;
        while i < bytes.len() {
            if bytes[i] == b'(' {
                let mut j = i;
                while j > 0 && (bytes[j - 1].is_ascii_alphanumeric() || bytes[j - 1] == b'_') {
                    j -= 1;
                }
                if j < i {
                    // `@builtin(` / `@location(` are attributes, not
                    // calls; `if (` etc. are filtered as keywords below.
                    if j == 0 || bytes[j - 1] != b'@' {
                        out.push((src[j..i].to_string(), j));
                    }
                }
                i += 1;
            } else {
                i += 1;
            }
        }
        out
    }

    fn defined_names(assembly: &str) -> Vec<String> {
        // `fn name` and `struct name` declared in the assembled module.
        let mut names = Vec::new();
        for (kw_len, kw) in [(3, "fn "), (7, "struct ")] {
            let mut rest = assembly;
            while let Some(pos) = rest.find(kw) {
                let after = &rest[pos + kw_len..];
                let name: String = after
                    .chars()
                    .take_while(|c| c.is_alphanumeric() || *c == '_')
                    .collect();
                if !name.is_empty() {
                    names.push(name);
                }
                rest = after;
            }
        }
        names
    }

    // WGSL-native spellings: prelude texture ops. Everything else
    // function-like must come from the registry or the assembly.
    const NATIVES: &[&str] = &[
        "textureSample",
        "textureSampleLevel",
        "textureLoad",
        "textureDimensions",
    ];
    const KEYWORDS: &[&str] = &["if", "for", "while", "return", "loop"];
    // (entry source, its assembled shader)
    let hdr_vertex = hdr_composite_generated::wgsl_vertex_source();
    let hdr_fragment = hdr_composite_generated::wgsl_source();
    let bloom = bloom_generated::wgsl_source();
    let lighting = lighting_generated::wgsl_source();
    let lighting_vertex = lighting_generated::wgsl_vertex_source();
    let composite = composite_generated::wgsl_source();
    let gbuffer_vertex = gbuffer_generated::wgsl_vertex_source();
    let gbuffer_fragment = gbuffer_generated::wgsl_source();
    let pbr = pbr_generated::wgsl_source();
    let pairs: Vec<(String, &str)> = vec![
        (
            composite_generated::vertex_entry(composite_generated::VERTEX_ENTRY_POINT),
            composite.as_str(),
        ),
        (
            composite_generated::fragment_entry(composite_generated::FRAGMENT_ENTRY_POINT),
            composite.as_str(),
        ),
        (
            gbuffer_generated::vertex_entry(),
            gbuffer_vertex.as_str(),
        ),
        (
            gbuffer_generated::fragment_entry(),
            gbuffer_fragment.as_str(),
        ),
        (pbr_generated::fs_main(), pbr.as_str()),
        (
            hdr_composite_generated::vertex_entry(),
            hdr_vertex.as_str(),
        ),
        (
            hdr_composite_generated::fragment_entry(),
            hdr_fragment.as_str(),
        ),
        (bloom_generated::vertex_entry(), bloom.as_str()),
        (bloom_generated::fragment_entry(), bloom.as_str()),
        (
            lighting_generated::vertex_entry(),
            lighting_vertex.as_str(),
        ),
        (
            lighting_generated::fragment_entry(),
            lighting.as_str(),
        ),
    ];
    let mut checked = 0;
    for (n, (entry, assembly)) in pairs.iter().enumerate() {
        let defs = defined_names(assembly);
        for (callee, _) in callee_uses(entry) {
            if KEYWORDS.contains(&callee.as_str()) {
                continue;
            }
            let resolved = BUILTINS.contains(&callee.as_str())
                || TYPES.contains(&callee.as_str())
                || NATIVES.contains(&callee.as_str())
                || defs.iter().any(|d| d == &callee);
            assert!(
                resolved,
                "entry {n}: unresolved call `{callee}`: typo'd kernel/helper or missing definition"
            );
            checked += 1;
        }
    }
    // Eleven entries make 85 calls today; near-zero hits would mean
    // the extraction broke and the test passes vacuously.
    assert!(checked >= 85, "expected calls, found {checked}");
}

#[test]
fn stage_resources_visible_at_stage() {
    // (globals read by one entry, pass table, entry stage)
    let cases: Vec<(&[&str], Vec<Resource>, ShaderStages)> = vec![
        (
            &hdr_composite_generated::VERTEX_GLOBALS,
            composite_generated::composite_resources().to_vec(),
            ShaderStages::vertex(),
        ),
        (
            &composite_generated::FRAGMENT_GLOBALS,
            composite_generated::composite_resources().to_vec(),
            ShaderStages::fragment(),
        ),
        (
            &gbuffer_generated::VERTEX_GLOBALS,
            gbuffer_generated::gbuffer_resources().to_vec(),
            ShaderStages::vertex(),
        ),
        (
            &gbuffer_generated::FRAGMENT_GLOBALS,
            gbuffer_generated::gbuffer_resources().to_vec(),
            ShaderStages::fragment(),
        ),
        (
            &pbr_generated::FRAGMENT_GLOBALS,
            pbr_generated::pbr_resources().to_vec(),
            ShaderStages::fragment(),
        ),
        (
            &hdr_composite_generated::VERTEX_GLOBALS,
            hdr_composite_generated::hdr_resources().to_vec(),
            ShaderStages::vertex(),
        ),
        (
            &hdr_composite_generated::FRAGMENT_GLOBALS,
            hdr_composite_generated::hdr_resources().to_vec(),
            ShaderStages::fragment(),
        ),
        (
            &hdr_composite_generated::VERTEX_GLOBALS,
            bloom_generated::bloom_resources().to_vec(),
            ShaderStages::vertex(),
        ),
        (
            &bloom_generated::FRAGMENT_GLOBALS,
            bloom_generated::bloom_resources().to_vec(),
            ShaderStages::fragment(),
        ),
        (
            &hdr_composite_generated::VERTEX_GLOBALS,
            lighting_generated::lighting_resources().to_vec(),
            ShaderStages::vertex(),
        ),
        (
            &lighting_generated::FRAGMENT_GLOBALS,
            lighting_generated::lighting_resources().to_vec(),
            ShaderStages::fragment(),
        ),
        (
            &lighting_generated::FRAGMENT_MAPS,
            lighting_generated::lighting_resources().to_vec(),
            ShaderStages::fragment(),
        ),
    ];
    let mut checked = 0;
    for (globals, table, stage) in &cases {
        for global in *globals {
            if let Some(row) = table.iter().find(|r| r.name == *global) {
                assert!(
                    row.visibility.contains(*stage),
                    "`{global}` is read at {stage:?} but bound for {:?}",
                    row.visibility
                );
                checked += 1;
            }
        }
    }
    // 28 table-backed uses today; fewer means a table lost a row the
    // entries still read: update deliberately.
    assert!(checked >= 28, "expected visible resources, found {checked}");
}

/// The slots of the material record, sixteen bytes each, start the groups where the record
/// places them.
#[test]
fn openpbr_rust_layout_matches_wgsl_order() {
    let offset = |slot: &str| {
        openpbr::OPENPBR_SLOTS
            .iter()
            .position(|s| *s == slot)
            .expect("slot exists") as u32
            * openpbr::SLOT_BYTES
    };
    assert_eq!(openpbr::OPENPBR_MATERIAL_SIZE, 320);
    assert_eq!(offset("base_params"), 0);
    assert_eq!(offset("specular_params"), 32);
    assert_eq!(offset("transmission_params"), 64);
    assert_eq!(offset("subsurface_params"), 112);
    assert_eq!(offset("fuzz_params"), 160);
    assert_eq!(offset("coat_params"), 192);
    assert_eq!(offset("thin_film_params"), 240);
    assert_eq!(offset("emission_params"), 256);
    assert_eq!(offset("geometry_params"), 288);
    assert_eq!(
        openpbr::openpbr_material_decl().matches("vec4<f32>").count(),
        20
    );
}
