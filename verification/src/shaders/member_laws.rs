//! Laws of the declared lists: every member, parameter, argument and corner is spelled, in its place.
use vstd::prelude::*;
#[allow(unused_imports)]
use vstd::string::*;

use crate::shaders::buffer_layouts;
use crate::shaders::buffer_layouts::Field;
use crate::shaders::declaration_laws;
use crate::shaders::declaration_laws::has;
use crate::shaders::interface;
use crate::shaders::interface::Varying;
use crate::shaders::lighting_generated;
use crate::shaders::openpbr;
use crate::shaders::pbr_generated;
use crate::shaders::quad;
use crate::shaders::shading;
use crate::shaders::shading::MaterialLocal;
use crate::shaders::shading_laws;
use crate::shaders::source;
use crate::shaders::source::Typed;
use crate::text;

verus! {

/// What stands in one of two neighbours stands in both together.
proof fn lemma_either(a: Seq<char>, b: Seq<char>, needle: Seq<char>)
    requires
        has(a, needle) || has(b, needle),
    ensures
        has(a + b, needle),
{
    if has(a, needle) {
        declaration_laws::lemma_has_left(a, b, needle);
    } else {
        declaration_laws::lemma_has_right(a, b, needle);
    }
}

/// A buffer struct declares every member under its name and with its type, on a line of its own.
pub proof fn structs_declare_every_member(name: Seq<char>, fields: Seq<Field>, i: int)
    requires
        0 <= i < fields.len(),
    ensures
        has(
            buffer_layouts::struct_text(name, fields),
            fields[i].0@ + ": "@ + fields[i].1.type_text() + ",\n"@,
        ),
        has(buffer_layouts::struct_text(name, fields), "struct "@ + name + " {\n"@),
{
    let needle = fields[i].0@ + ": "@ + fields[i].1.type_text() + ",\n"@;
    let head = "struct "@ + name + " {\n"@;
    let inner = buffer_layouts::fields_text(fields);
    lemma_fields(fields, i);
    declaration_laws::lemma_has_self(head);
    lemma_either(head, inner, needle);
    lemma_either(head + inner, "}\n"@, needle);
    lemma_either(head, inner, head);
    lemma_either(head + inner, "}\n"@, head);
}

proof fn lemma_fields(fields: Seq<Field>, i: int)
    requires
        0 <= i < fields.len(),
    ensures
        has(
            buffer_layouts::fields_text(fields),
            fields[i].0@ + ": "@ + fields[i].1.type_text() + ",\n"@,
        ),
    decreases fields.len(),
{
    let needle = fields[i].0@ + ": "@ + fields[i].1.type_text() + ",\n"@;
    let rest = buffer_layouts::fields_text(fields.drop_last());
    let last = "    "@ + fields.last().0@ + ": "@ + fields.last().1.type_text() + ",\n"@;
    if i == fields.len() - 1 {
        assert(last =~= "    "@ + needle);
        declaration_laws::lemma_has_self(needle);
        lemma_either("    "@, needle, needle);
    } else {
        lemma_fields(fields.drop_last(), i);
    }
    lemma_either(rest, last, needle);
}

/// An interface struct declares every member with its attributes, under its name and with its type.
pub proof fn interfaces_declare_every_member(name: Seq<char>, fields: Seq<Varying>, i: int)
    requires
        0 <= i < fields.len(),
    ensures
        has(
            interface::interface_text(name, fields),
            fields[i].0@ + " "@ + fields[i].1@ + ": "@ + fields[i].2@ + ",\n"@,
        ),
        has(interface::interface_text(name, fields), "struct "@ + name + " {\n"@),
{
    let needle = fields[i].0@ + " "@ + fields[i].1@ + ": "@ + fields[i].2@ + ",\n"@;
    let head = "struct "@ + name + " {\n"@;
    let inner = interface::members_text(fields);
    lemma_members(fields, i);
    declaration_laws::lemma_has_self(head);
    lemma_either(head, inner, needle);
    lemma_either(head + inner, "}\n"@, needle);
    lemma_either(head, inner, head);
    lemma_either(head + inner, "}\n"@, head);
}

proof fn lemma_members(fields: Seq<Varying>, i: int)
    requires
        0 <= i < fields.len(),
    ensures
        has(
            interface::members_text(fields),
            fields[i].0@ + " "@ + fields[i].1@ + ": "@ + fields[i].2@ + ",\n"@,
        ),
    decreases fields.len(),
{
    let needle = fields[i].0@ + " "@ + fields[i].1@ + ": "@ + fields[i].2@ + ",\n"@;
    let rest = interface::members_text(fields.drop_last());
    let last = "    "@ + fields.last().0@ + " "@ + fields.last().1@ + ": "@ + fields.last().2@
        + ",\n"@;
    if i == fields.len() - 1 {
        assert(last =~= "    "@ + needle);
        declaration_laws::lemma_has_self(needle);
        lemma_either("    "@, needle, needle);
    } else {
        lemma_members(fields.drop_last(), i);
    }
    lemma_either(rest, last, needle);
}

/// The material record declares every slot as a vector of four.
pub proof fn the_material_record_declares_every_slot(i: int)
    requires
        0 <= i < openpbr::OPENPBR_SLOTS@.len(),
    ensures
        has(openpbr::openpbr_text(), openpbr::OPENPBR_SLOTS@[i]@ + ": vec4<f32>,\n"@),
{
    let needle = openpbr::OPENPBR_SLOTS@[i]@ + ": vec4<f32>,\n"@;
    let inner = openpbr::slots_text(openpbr::OPENPBR_SLOTS@);
    lemma_slots(openpbr::OPENPBR_SLOTS@, i);
    lemma_either("\nstruct OpenPBRMaterial {\n"@, inner, needle);
    lemma_either("\nstruct OpenPBRMaterial {\n"@ + inner, "};\n"@, needle);
}

proof fn lemma_slots(slots: Seq<&'static str>, i: int)
    requires
        0 <= i < slots.len(),
    ensures
        has(openpbr::slots_text(slots), slots[i]@ + ": vec4<f32>,\n"@),
    decreases slots.len(),
{
    let needle = slots[i]@ + ": vec4<f32>,\n"@;
    let rest = openpbr::slots_text(slots.drop_last());
    let last = "    "@ + slots.last()@ + ": vec4<f32>,\n"@;
    if i == slots.len() - 1 {
        assert(last =~= "    "@ + needle);
        declaration_laws::lemma_has_self(needle);
        lemma_either("    "@, needle, needle);
    } else {
        lemma_slots(slots.drop_last(), i);
    }
    lemma_either(rest, last, needle);
}

/// Arguments are the names of the values, in their order, with commas between them.
pub proof fn arguments_are_joined_names(args: Seq<Typed>)
    ensures
        source::args_text(args) == text::joined(args.map_values(|a: Typed| a.0@), ", "@),
    decreases args.len(),
{
    let names = args.map_values(|a: Typed| a.0@);
    if args.len() > 1 {
        arguments_are_joined_names(args.drop_last());
        assert(names.drop_last() =~= args.drop_last().map_values(|a: Typed| a.0@));
    }
}

/// Parameters are the names with their types, in their order, with commas between them.
pub proof fn parameters_are_joined_names_with_types(params: Seq<Typed>)
    ensures
        source::params_text(params) == text::joined(
            params.map_values(|p: Typed| p.0@ + ": "@ + p.1@),
            ", "@,
        ),
    decreases params.len(),
{
    let parts = params.map_values(|p: Typed| p.0@ + ": "@ + p.1@);
    if params.len() > 1 {
        parameters_are_joined_names_with_types(params.drop_last());
        assert(parts.drop_last() =~= params.drop_last().map_values(
            |p: Typed| p.0@ + ": "@ + p.1@,
        ));
    }
}

/// The read of a local from the material record.
pub open spec fn local_read(row: MaterialLocal) -> Seq<char> {
    "let "@ + row.0@ + " = mat."@ + row.1@ + "."@ + row.2@ + "; "@
}

proof fn lemma_locals(rows: Seq<MaterialLocal>, i: int)
    requires
        0 <= i < rows.len(),
    ensures
        has(shading::locals_text(rows), local_read(rows[i])),
    decreases rows.len(),
{
    let rest = shading::locals_text(rows.drop_last());
    if i == rows.len() - 1 {
        declaration_laws::lemma_has_self(local_read(rows[i]));
    } else {
        lemma_locals(rows.drop_last(), i);
    }
    lemma_either(rest, local_read(rows.last()), local_read(rows[i]));
}

proof fn lemma_shading_has_local(tangents: Seq<char>, i: int)
    requires
        0 <= i < shading::MATERIAL_LOCALS@.len(),
    ensures
        has(shading::shading_text(tangents), local_read(shading::MATERIAL_LOCALS@[i])),
{
    let all = shading::shading_text(tangents);
    let front = shading::locals_text(shading::MATERIAL_LOCALS@);
    let back = all.subrange(front.len() as int, all.len() as int);
    assert(all =~= front + back);
    lemma_locals(shading::MATERIAL_LOCALS@, i);
    lemma_either(front, back, local_read(shading::MATERIAL_LOCALS@[i]));
}

/// Both shading stages read every local from its slot and components of the material.
pub proof fn both_stages_read_every_local(i: int)
    requires
        0 <= i < shading::MATERIAL_LOCALS@.len(),
    ensures
        has(lighting_generated::lighting_text(), local_read(shading::MATERIAL_LOCALS@[i])),
        has(pbr_generated::pbr_text(), local_read(shading::MATERIAL_LOCALS@[i])),
{
    lemma_shading_has_local(lighting_generated::TANGENTS@, i);
    lemma_shading_has_local(""@, i);
    shading_laws::lemma_both_stages_hold(local_read(shading::MATERIAL_LOCALS@[i]));
}

/// A constant array spells every row as a constructor of its type.
pub proof fn arrays_spell_every_row<const N: usize>(
    name: Seq<char>,
    ty: Seq<char>,
    rows: Seq<[i32; N]>,
    i: int,
)
    requires
        0 <= i < rows.len(),
    ensures
        has(
            quad::const_array_text(name, ty, rows),
            ty + "("@ + quad::row_text(rows[i]@) + "),\n"@,
        ),
{
    let needle = ty + "("@ + quad::row_text(rows[i]@) + "),\n"@;
    let all = quad::const_array_text(name, ty, rows);
    let inner = quad::rows_text(ty, rows);
    lemma_rows(ty, rows, i);
    let front = all.subrange(0, all.len() - inner.len() - ");\n"@.len());
    assert(all =~= front + inner + ");\n"@);
    lemma_either(front, inner, needle);
    lemma_either(front + inner, ");\n"@, needle);
}

proof fn lemma_rows<const N: usize>(ty: Seq<char>, rows: Seq<[i32; N]>, i: int)
    requires
        0 <= i < rows.len(),
    ensures
        has(quad::rows_text(ty, rows), ty + "("@ + quad::row_text(rows[i]@) + "),\n"@),
    decreases rows.len(),
{
    let needle = ty + "("@ + quad::row_text(rows[i]@) + "),\n"@;
    let rest = quad::rows_text(ty, rows.drop_last());
    let last = "    "@ + ty + "("@ + quad::row_text(rows.last()@) + "),\n"@;
    if i == rows.len() - 1 {
        assert(last =~= "    "@ + needle);
        declaration_laws::lemma_has_self(needle);
        lemma_either("    "@, needle, needle);
    } else {
        lemma_rows(ty, rows.drop_last(), i);
    }
    lemma_either(rest, last, needle);
}

/// The number that a literal of a whole number spells, behind its sign.
pub proof fn literals_spell_their_number(v: int)
    ensures
        quad::whole_lit_text(v) == if v < 0 {
            "-"@ + quad::whole_lit_text(-v)
        } else {
            text::decimal(v as nat) + ".0"@
        },
{
    if v < 0 {
        assert("-"@ + (text::decimal((-v) as nat) + ".0"@) =~= "-"@ + text::decimal((-v) as nat)
            + ".0"@);
    }
}

/// A row of literals is the literals of its numbers, in their order, with commas between them.
pub proof fn rows_are_joined_literals(row: Seq<i32>)
    ensures
        quad::row_text(row) == text::joined(
            row.map_values(|v: i32| quad::whole_lit_text(v as int)),
            ", "@,
        ),
    decreases row.len(),
{
    let parts = row.map_values(|v: i32| quad::whole_lit_text(v as int));
    if row.len() > 1 {
        rows_are_joined_literals(row.drop_last());
        assert(parts.drop_last() =~= row.drop_last().map_values(
            |v: i32| quad::whole_lit_text(v as int),
        ));
    }
}

} // verus!
