//! Laws: every resource that a pass binds is declared in its shaders, under the same numbers.
use vstd::prelude::*;

use crate::shaders;
use crate::shaders::assembly;
use crate::shaders::bloom_generated;
use crate::shaders::buffer_layouts;
use crate::shaders::composite_generated;
use crate::shaders::gbuffer_generated;
use crate::shaders::hdr_composite_generated;
use crate::shaders::helpers;
use crate::shaders::interface;
use crate::shaders::lighting_generated;
use crate::shaders::math;
use crate::shaders::openpbr;
use crate::shaders::pbr_generated;
use crate::shaders::quad;
use crate::shaders::Resource;
use crate::text;

verus! {

/// `needle` stands somewhere in `hay`.
pub open spec fn has(hay: Seq<char>, needle: Seq<char>) -> bool {
    exists|at: int| #[trigger] text::occurs_at(hay, needle, at)
}

pub(crate) proof fn lemma_has_between(before: Seq<char>, needle: Seq<char>, after: Seq<char>)
    ensures
        has(before + needle + after, needle),
{
    let hay = before + needle + after;
    assert(hay.subrange(before.len() as int, (before.len() + needle.len()) as int) == needle);
    assert(text::occurs_at(hay, needle, before.len() as int));
}

pub(crate) proof fn lemma_has_within(hay: Seq<char>, middle: Seq<char>, needle: Seq<char>)
    requires
        has(hay, middle),
        has(middle, needle),
    ensures
        has(hay, needle),
{
    let a = choose|at: int| #[trigger] text::occurs_at(hay, middle, at);
    let b = choose|at: int| #[trigger] text::occurs_at(middle, needle, at);
    assert(hay.subrange(a + b, a + b + needle.len()) =~= middle.subrange(b, b + needle.len()));
    assert(text::occurs_at(hay, needle, a + b));
}

pub(crate) proof fn lemma_has_left(left: Seq<char>, right: Seq<char>, needle: Seq<char>)
    requires
        has(left, needle),
    ensures
        has(left + right, needle),
{
    lemma_has_between(Seq::empty(), left, right);
    assert(Seq::<char>::empty() + left + right == left + right);
    lemma_has_within(left + right, left, needle);
}

pub(crate) proof fn lemma_has_right(left: Seq<char>, right: Seq<char>, needle: Seq<char>)
    requires
        has(right, needle),
    ensures
        has(left + right, needle),
{
    lemma_has_between(left, right, Seq::empty());
    assert(left + right + Seq::<char>::empty() == left + right);
    lemma_has_within(left + right, right, needle);
}

pub(crate) proof fn lemma_has_self(s: Seq<char>)
    ensures
        has(s, s),
{
    lemma_has_between(Seq::empty(), s, Seq::empty());
    assert(Seq::<char>::empty() + s + Seq::<char>::empty() == s);
}

/// A block of declarations holds the declaration of every listed binding.
pub proof fn declarations_hold_every_listed_row(table: Seq<Resource>, bindings: Seq<u32>, i: int)
    requires
        0 <= i < bindings.len(),
    ensures
        has(
            shaders::decls_text(table, bindings),
            shaders::decl_text(table[shaders::row_of(table, bindings[i])]),
        ),
    decreases bindings.len(),
{
    let before = shaders::decls_text(table, bindings.drop_last());
    let last = shaders::decl_text(table[shaders::row_of(table, bindings.last())]);
    let needle = shaders::decl_text(table[shaders::row_of(table, bindings[i])]);
    if i == bindings.len() - 1 {
        lemma_has_self(needle);
        lemma_has_right(before, last, needle);
    } else {
        declarations_hold_every_listed_row(table, bindings.drop_last(), i);
        lemma_has_left(before, last, needle);
    }
}

/// The declaration and the layout entry of a resource agree: the text starts with the numbers
/// of the entry, and only textures observe multisampling.
pub proof fn declaration_and_layout_entry_agree(r: Resource, multisampled: bool)
    ensures
        shaders::entry_of(r, multisampled).binding == r.binding,
        shaders::entry_of(r, multisampled).visibility == r.visibility,
        has(
            shaders::decl_text(r),
            "@group("@ + text::decimal(r.group as nat) + ") @binding("@ + text::decimal(
                shaders::entry_of(r, multisampled).binding as nat,
            ) + ") "@,
        ),
        (shaders::entry_of(r, true) != shaders::entry_of(r, false)) == r.kind.is_texture(),
{
    let head = "@group("@ + text::decimal(r.group as nat) + ") @binding("@ + text::decimal(
        r.binding as nat,
    ) + ") "@;
    lemma_has_self(head);
    lemma_has_left(head, r.kind.var_text(), head);
    lemma_has_left(head + r.kind.var_text(), " "@, head);
    lemma_has_left(head + r.kind.var_text() + " "@, r.name@, head);
    lemma_has_left(head + r.kind.var_text() + " "@ + r.name@, ": "@, head);
    lemma_has_left(
        head + r.kind.var_text() + " "@ + r.name@ + ": "@,
        r.kind.type_text(),
        head,
    );
    lemma_has_left(
        head + r.kind.var_text() + " "@ + r.name@ + ": "@ + r.kind.type_text(),
        ";\n"@,
        head,
    );
}

proof fn lemma_has_first(
    first: Seq<char>,
    a: Seq<char>,
    b: Seq<char>,
    c: Seq<char>,
    needle: Seq<char>,
)
    requires
        has(first, needle),
    ensures
        has(first + a + b + c, needle),
{
    lemma_has_left(first, a, needle);
    lemma_has_left(first + a, b, needle);
    lemma_has_left(first + a + b, c, needle);
}

/// A text that starts with a block of declarations, with something behind it.
proof fn lemma_starts_with(decls: Seq<char>, b: Seq<char>, c: Seq<char>)
    ensures
        has(decls + b + c, decls),
{
    lemma_has_self(decls);
    lemma_has_left(decls, b, decls);
    lemma_has_left(decls + b, c, decls);
}

/// The bloom shader declares every resource of its pass.
pub proof fn bloom_declares_every_row(k: int)
    requires
        0 <= k < bloom_generated::bloom_rows().len(),
    ensures
        has(
            bloom_generated::bloom_text(),
            shaders::decl_text(bloom_generated::bloom_rows()[k]),
        ),
{
    let rows = bloom_generated::bloom_rows();
    let needle = shaders::decl_text(rows[k]);
    shaders::lemma_numbered(rows);
    assert(bloom_generated::BINDINGS@[k] == k as u32);
    declarations_hold_every_listed_row(rows, bloom_generated::BINDINGS@, k);
    let decls = shaders::decls_text(rows, bloom_generated::BINDINGS@);
    let head = bloom_generated::head_text();
    lemma_starts_with(
        decls,
        "\n"@,
        quad::const_block_text("QUAD"@, "UVS"@, quad::STANDARD_QUAD@, quad::STANDARD_UVS@),
    );
    lemma_has_within(head, decls, needle);
    let all = bloom_generated::bloom_text();
    let before = "\n"@ + assembly::closed_decl(
        buffer_layouts::struct_text(buffer_layouts::BLOOM_NAME@, buffer_layouts::BLOOM@),
    ) + "\n"@;
    assert(all.subrange(before.len() as int, (before.len() + head.len()) as int) =~= head);
    assert(text::occurs_at(all, head, before.len() as int));
    lemma_has_within(all, head, needle);
}

/// The shader that mixes in the user interface declares every resource of its pass.
pub proof fn composite_declares_every_row(k: int)
    requires
        0 <= k < composite_generated::composite_rows().len(),
    ensures
        has(
            composite_generated::composite_text(),
            shaders::decl_text(composite_generated::composite_rows()[k]),
        ),
{
    let rows = composite_generated::composite_rows();
    let needle = shaders::decl_text(rows[k]);
    shaders::lemma_numbered(rows);
    assert(composite_generated::BINDINGS@[k] == k as u32);
    declarations_hold_every_listed_row(rows, composite_generated::BINDINGS@, k);
    let decls = shaders::decls_text(rows, composite_generated::BINDINGS@);
    let head = composite_generated::head_text();
    lemma_starts_with(
        decls,
        "\n"@,
        quad::const_block_text("quad"@, "uvs"@, quad::COMPOSITE_QUAD@, quad::COMPOSITE_UVS@),
    );
    lemma_has_within(head, decls, needle);
    let all = composite_generated::composite_text();
    let before = "\n"@ + assembly::closed_decl(
        interface::interface_text(interface::UI_COMPOSITE_OUT_NAME@, interface::UI_COMPOSITE_OUT@),
    ) + "\n"@;
    assert(all.subrange(before.len() as int, (before.len() + head.len()) as int) =~= head);
    assert(text::occurs_at(all, head, before.len() as int));
    lemma_has_within(all, head, needle);
}

/// The composite shader declares every resource of its pass.
pub proof fn hdr_composite_declares_every_row(k: int)
    requires
        0 <= k < hdr_composite_generated::hdr_rows().len(),
    ensures
        has(
            hdr_composite_generated::hdr_text(),
            shaders::decl_text(hdr_composite_generated::hdr_rows()[k]),
        ),
{
    let rows = hdr_composite_generated::hdr_rows();
    let needle = shaders::decl_text(rows[k]);
    shaders::lemma_numbered(rows);
    assert(hdr_composite_generated::BINDINGS@[k] == k as u32);
    declarations_hold_every_listed_row(rows, hdr_composite_generated::BINDINGS@, k);
    let decls = shaders::decls_text(rows, hdr_composite_generated::BINDINGS@);
    let head = hdr_composite_generated::head_text();
    lemma_starts_with(decls, "\n"@, hdr_composite_generated::quad_text());
    lemma_has_within(head, decls, needle);
    let all = hdr_composite_generated::hdr_text();
    let before = "\n"@ + assembly::closed_decl(
        buffer_layouts::struct_text(buffer_layouts::CAMERA_NAME@, buffer_layouts::CAMERA@),
    ) + "\n"@ + assembly::closed_decl(
        buffer_layouts::struct_text(buffer_layouts::BLOOM_NAME@, buffer_layouts::BLOOM@),
    ) + "\n"@;
    assert(all.subrange(before.len() as int, (before.len() + head.len()) as int) =~= head);
    assert(text::occurs_at(all, head, before.len() as int));
    lemma_has_within(all, head, needle);
}

/// The lighting shader declares every resource of its pass.
pub proof fn lighting_declares_every_row(k: int)
    requires
        0 <= k < lighting_generated::lighting_rows().len(),
    ensures
        has(
            lighting_generated::lighting_text(),
            shaders::decl_text(lighting_generated::lighting_rows()[k]),
        ),
{
    let rows = lighting_generated::lighting_rows();
    let needle = shaders::decl_text(rows[k]);
    shaders::lemma_numbered(rows);
    assert(lighting_generated::BINDINGS@[k] == k as u32);
    declarations_hold_every_listed_row(rows, lighting_generated::BINDINGS@, k);
    let decls = shaders::decls_text(rows, lighting_generated::BINDINGS@);
    let header = lighting_generated::header_text();
    let start = assembly::closed_decl(
        buffer_layouts::struct_text(buffer_layouts::CAMERA_NAME@, buffer_layouts::CAMERA@),
    ) + assembly::closed_decl(
        buffer_layouts::struct_text(buffer_layouts::LIGHT_NAME@, buffer_layouts::LIGHT@),
    ) + assembly::closed_decl(
        buffer_layouts::struct_text(buffer_layouts::LIGHTING_NAME@, buffer_layouts::LIGHTING@),
    ) + openpbr::openpbr_text();
    lemma_has_right(start, decls, needle);
    assert(header == start + decls);
    let s1 = header + "\n"@ + helpers::consts_text() + "\n"@;
    lemma_has_first(header, "\n"@, helpers::consts_text(), "\n"@, needle);
    let decode = text::joined(helpers::lighting_decode(), "\n"@);
    let shared = text::joined(helpers::shared_helpers(), "\n"@);
    let s2 = s1 + decode + "\n"@ + shared;
    lemma_has_first(s1, decode, "\n"@, shared, needle);
    let s3 = s2 + "\n"@ + lighting_generated::fragment_entry_text() + "\n"@;
    lemma_has_first(s2, "\n"@, lighting_generated::fragment_entry_text(), "\n"@, needle);
    lemma_has_left(s3, text::joined(math::kernel_texts(math::LIGHTING_KERNELS@), "\n"@), needle);
}

/// The two stages of the g-buffer shader declare every resource of the pass between them, and each
/// declares those that it reads.
pub proof fn gbuffer_declares_every_row(k: int)
    requires
        0 <= k < gbuffer_generated::gbuffer_rows().len(),
    ensures
        k < 2 ==> has(
            gbuffer_generated::gbuffer_vertex_text(),
            shaders::decl_text(gbuffer_generated::gbuffer_rows()[k]),
        ),
        k == 2 ==> has(
            gbuffer_generated::gbuffer_text(),
            shaders::decl_text(gbuffer_generated::gbuffer_rows()[k]),
        ),
{
    let rows = gbuffer_generated::gbuffer_rows();
    let needle = shaders::decl_text(rows[k]);
    shaders::lemma_numbered(rows);
    if k < 2 {
        assert(gbuffer_generated::VERTEX_BINDINGS@[k] == k as u32);
        declarations_hold_every_listed_row(rows, gbuffer_generated::VERTEX_BINDINGS@, k);
        let decls = shaders::decls_text(rows, gbuffer_generated::VERTEX_BINDINGS@);
        let all = gbuffer_generated::gbuffer_vertex_text();
        let before = "\n"@ + buffer_layouts::struct_text(
            buffer_layouts::CAMERA_NAME@,
            buffer_layouts::CAMERA@,
        ) + "\n"@ + buffer_layouts::struct_text(
            buffer_layouts::PER_OBJECT_NAME@,
            buffer_layouts::PER_OBJECT@,
        ) + "\n"@;
        assert(all.subrange(before.len() as int, (before.len() + decls.len()) as int) =~= decls);
        assert(text::occurs_at(all, decls, before.len() as int));
        lemma_has_within(all, decls, needle);
    } else {
        assert(gbuffer_generated::FRAGMENT_BINDINGS@[0] == 2u32);
        declarations_hold_every_listed_row(rows, gbuffer_generated::FRAGMENT_BINDINGS@, 0);
        let decls = shaders::decls_text(rows, gbuffer_generated::FRAGMENT_BINDINGS@);
        let all = gbuffer_generated::gbuffer_text();
        let before = openpbr::openpbr_text() + "\n"@;
        assert(all.subrange(before.len() as int, (before.len() + decls.len()) as int) =~= decls);
        assert(text::occurs_at(all, decls, before.len() as int));
        lemma_has_within(all, decls, needle);
    }
}

proof fn lemma_kept_contains(pieces: Seq<Seq<char>>, i: int)
    requires
        0 <= i < pieces.len(),
        text::chomped(pieces[i]).len() > 0,
    ensures
        assembly::kept(pieces).contains(text::chomped(pieces[i])),
    decreases pieces.len(),
{
    let rest = assembly::kept(pieces.drop_last());
    let all = assembly::kept(pieces);
    if i == pieces.len() - 1 {
        assert(all.last() == text::chomped(pieces[i]));
    } else {
        lemma_kept_contains(pieces.drop_last(), i);
        let at = choose|at: int| 0 <= at < rest.len() && rest[at] == text::chomped(pieces[i]);
        assert(all[at] == rest[at]);
    }
}

proof fn lemma_last_part(front: Seq<char>, last: Seq<char>, sep: Seq<char>)
    ensures
        has(front + last + sep, last + sep),
{
    lemma_has_between(front, last + sep, Seq::empty());
    assert(front + (last + sep) + Seq::<char>::empty() =~= front + last + sep);
}

proof fn lemma_earlier_part(front: Seq<char>, last: Seq<char>, sep: Seq<char>, needle: Seq<char>)
    requires
        has(front, needle),
    ensures
        has(front + last + sep, needle),
{
    lemma_has_left(front, last, needle);
    lemma_has_left(front + last, sep, needle);
}

proof fn lemma_joined_has(parts: Seq<Seq<char>>, sep: Seq<char>, i: int)
    requires
        0 <= i < parts.len(),
    ensures
        has(text::joined(parts, sep) + sep, parts[i] + sep),
    decreases parts.len(),
{
    if parts.len() == 1 {
        lemma_has_self(parts[0] + sep);
    } else {
        let rest = text::joined(parts.drop_last(), sep);
        if i == parts.len() - 1 {
            lemma_last_part(rest + sep, parts.last(), sep);
        } else {
            lemma_joined_has(parts.drop_last(), sep, i);
            lemma_earlier_part(rest + sep, parts.last(), sep, parts[i] + sep);
        }
    }
}

/// An emitted module holds every piece that is not empty, on lines of its own, without the line
/// feeds at its edges.
pub proof fn every_piece_is_emitted(pieces: Seq<Seq<char>>, i: int)
    requires
        0 <= i < pieces.len(),
        text::chomped(pieces[i]).len() > 0,
    ensures
        has(assembly::emitted(pieces), text::chomped(pieces[i]) + "\n"@),
{
    let kept = assembly::kept(pieces);
    let needle = text::chomped(pieces[i]) + "\n"@;
    lemma_kept_contains(pieces, i);
    let at = choose|at: int| 0 <= at < kept.len() && kept[at] == text::chomped(pieces[i]);
    lemma_joined_has(kept, "\n"@, at);
    let body = text::joined(kept, "\n"@);
    lemma_has_right("\n"@, body + "\n"@, needle);
    assert("\n"@ + (body + "\n"@) == "\n"@ + body + "\n"@);
}

/// A block of declarations loses only its last line feed at its edges.
proof fn lemma_declarations_chomped(table: Seq<Resource>, bindings: Seq<u32>)
    requires
        bindings.len() > 0,
    ensures
        text::chomped(shaders::decls_text(table, bindings)).len() > 0,
        text::chomped(shaders::decls_text(table, bindings)) + "\n"@ == shaders::decls_text(
            table,
            bindings,
        ),
{
    let block = shaders::decls_text(table, bindings);
    lemma_block_starts_at(table, bindings);
    let last = shaders::decl_text(table[shaders::row_of(table, bindings.last())]);
    reveal_strlit(";\n");
    reveal_strlit("\n");
    assert(last[last.len() - 1] == '\n');
    assert(last[last.len() - 2] == ';');
    assert(block[block.len() - 1] == '\n');
    assert(block[block.len() - 2] == ';');
    assert(text::chomped_start(block) == block);
    let shorter = block.drop_last();
    assert(text::chomped_end(shorter) == shorter);
    assert(text::chomped_end(block) == shorter);
    assert(shorter + "\n"@ == block);
}

proof fn lemma_block_starts_at(table: Seq<Resource>, bindings: Seq<u32>)
    requires
        bindings.len() > 0,
    ensures
        shaders::decls_text(table, bindings).len() > 0,
        shaders::decls_text(table, bindings)[0] == '@',
    decreases bindings.len(),
{
    let rest = bindings.drop_last();
    let last = shaders::decl_text(table[shaders::row_of(table, bindings.last())]);
    reveal_strlit("@group(");
    assert(last[0] == '@');
    if rest.len() > 0 {
        lemma_block_starts_at(table, rest);
    } else {
        assert(shaders::decls_text(table, rest) == Seq::<char>::empty());
    }
}

/// The fragment stage of the forward shader declares every resource of its pass that it reads.
/// The remaining one is read by the vertex stage, which the pass shares with the g-buffer pass.
pub proof fn pbr_declares_every_fragment_row(k: int)
    requires
        0 <= k < pbr_generated::pbr_rows().len(),
        k != 1,
    ensures
        has(
            pbr_generated::pbr_text(),
            shaders::decl_text(pbr_generated::pbr_rows()[k]),
        ),
{
    let rows = pbr_generated::pbr_rows();
    let needle = shaders::decl_text(rows[k]);
    shaders::lemma_numbered(rows);
    let bindings = pbr_generated::FRAGMENT_BINDINGS@;
    let i: int = if k == 0 {
        0
    } else {
        k - 1
    };
    assert(bindings[i] == k as u32);
    declarations_hold_every_listed_row(rows, bindings, i);
    let decls = shaders::decls_text(rows, bindings);
    lemma_declarations_chomped(rows, bindings);
    let pieces = pbr_generated::pbr_module().pieces();
    assert(pieces[5] == decls);
    every_piece_is_emitted(pieces, 5);
    lemma_has_within(pbr_generated::pbr_text(), decls, needle);
}

} // verus!
