//! Laws: buffer contents stand where the shaders declare their members.
use vstd::prelude::*;

use crate::bindings::BloomUniform;
use crate::material::MaterialRecord;
use crate::renderer;
use crate::scene::{Bits, ONE};
use crate::shaders::bloom_generated;
use crate::shaders::buffer_layouts;
use crate::shaders::buffer_layouts::Field;
use crate::shaders::openpbr;
use crate::uploads;
use crate::uploads::{GpuLight, InstanceData, Matrix};

verus! {

/// Words of member `i` in the contents of a buffer.
pub open spec fn member(fields: Seq<Field>, i: int, block: Seq<u32>) -> Seq<u32> {
    let start = buffer_layouts::offset_of(fields, i) / 4;
    block.subrange(start as int, (start + fields[i].1.bytes() / 4) as int)
}

/// Offsets and span of a buffer of three members.
proof fn lemma_three_members(fields: Seq<Field>)
    requires
        fields.len() == 3,
    ensures
        buffer_layouts::offset_of(fields, 0) == 0,
        buffer_layouts::offset_of(fields, 1) == buffer_layouts::round_up(
            fields[0].1.bytes(),
            fields[1].1.alignment(),
        ),
        buffer_layouts::offset_of(fields, 2) == buffer_layouts::round_up(
            buffer_layouts::offset_of(fields, 1) + fields[1].1.bytes(),
            fields[2].1.alignment(),
        ),
        buffer_layouts::end_of(fields) == buffer_layouts::offset_of(fields, 2)
            + fields[2].1.bytes(),
        buffer_layouts::struct_alignment(fields) == 16 <==> fields[0].1.alignment() == 16
            || fields[1].1.alignment() == 16 || fields[2].1.alignment() == 16,
        buffer_layouts::struct_alignment(fields) == 4 || buffer_layouts::struct_alignment(fields)
            == 16,
{
    reveal_with_fuel(buffer_layouts::struct_alignment, 4);
    let none = fields.subrange(0, 0);
    let one = fields.subrange(0, 1);
    let two = fields.subrange(0, 2);
    assert(one.drop_last() == none);
    assert(two.drop_last() == one);
    assert(fields.drop_last() == two);
    assert(buffer_layouts::end_of(none) == 0);
    assert(buffer_layouts::round_up(0, 4) == 0 && buffer_layouts::round_up(0, 16) == 0);
    assert(fields[0].1.alignment() == 4 || fields[0].1.alignment() == 16);
    assert(buffer_layouts::end_of(one) == fields[0].1.bytes());
}

/// Offsets and span of a buffer of three members, from their sizes.
proof fn lemma_offsets(fields: Seq<Field>, b0: nat, b1: nat, a1: nat, b2: nat, a2: nat, align: nat)
    requires
        fields.len() == 3,
        fields[0].1.bytes() == b0,
        fields[1].1.bytes() == b1,
        fields[1].1.alignment() == a1,
        fields[2].1.bytes() == b2,
        fields[2].1.alignment() == a2,
        buffer_layouts::round_up(b0, a1) == b0,
        buffer_layouts::round_up(b0 + b1, a2) == b0 + b1,
        align == if fields[0].1.alignment() == 16 || a1 == 16 || a2 == 16 {
            16nat
        } else {
            4nat
        },
    ensures
        buffer_layouts::offset_of(fields, 0) == 0,
        buffer_layouts::offset_of(fields, 1) == b0,
        buffer_layouts::offset_of(fields, 2) == b0 + b1,
        buffer_layouts::span_of(fields) == buffer_layouts::round_up(b0 + b1 + b2, align),
{
    lemma_three_members(fields);
}

/// Offsets and spans of the declared buffers.
proof fn lemma_declared()
    ensures
        buffer_layouts::offset_of(buffer_layouts::CAMERA@, 0) == 0,
        buffer_layouts::offset_of(buffer_layouts::CAMERA@, 1) == 64,
        buffer_layouts::offset_of(buffer_layouts::CAMERA@, 2) == 128,
        buffer_layouts::span_of(buffer_layouts::CAMERA@) == 144,
        buffer_layouts::offset_of(buffer_layouts::PER_OBJECT@, 0) == 0,
        buffer_layouts::offset_of(buffer_layouts::PER_OBJECT@, 1) == 64,
        buffer_layouts::offset_of(buffer_layouts::PER_OBJECT@, 2) == 128,
        buffer_layouts::span_of(buffer_layouts::PER_OBJECT@) == 144,
        buffer_layouts::offset_of(buffer_layouts::LIGHTING@, 0) == 0,
        buffer_layouts::offset_of(buffer_layouts::LIGHTING@, 1) == 16,
        buffer_layouts::offset_of(buffer_layouts::LIGHTING@, 2) == 144,
        buffer_layouts::span_of(buffer_layouts::LIGHTING@) == 160,
        buffer_layouts::offset_of(buffer_layouts::BLOOM@, 0) == 0,
        buffer_layouts::offset_of(buffer_layouts::BLOOM@, 1) == 4,
        buffer_layouts::offset_of(buffer_layouts::BLOOM@, 2) == 8,
        buffer_layouts::span_of(buffer_layouts::BLOOM@) == 12,
{
    lemma_offsets(buffer_layouts::CAMERA@, 64, 64, 16, 16, 16, 16);
    lemma_offsets(buffer_layouts::PER_OBJECT@, 64, 64, 16, 4, 4, 16);
    lemma_offsets(buffer_layouts::LIGHTING@, 16, 128, 16, 4, 4, 16);
    lemma_offsets(buffer_layouts::BLOOM@, 4, 4, 4, 4, 4, 4);
}

/// The camera buffer has the declared size, and its members stand where they are declared, under the
/// names by which the shaders read them.
pub proof fn camera_contents_follow_the_layout(view_proj: Matrix, inverse: Matrix, eye: [Bits; 3])
    ensures
        buffer_layouts::CAMERA@[0].0 == "view_proj",
        buffer_layouts::CAMERA@[1].0 == "inv_view_proj",
        buffer_layouts::CAMERA@[2].0 == "camera_pos",
        uploads::camera_block(view_proj, inverse, eye).len() * 4 == buffer_layouts::span_of(
            buffer_layouts::CAMERA@,
        ),
        member(buffer_layouts::CAMERA@, 0, uploads::camera_block(view_proj, inverse, eye))
            == view_proj@,
        member(buffer_layouts::CAMERA@, 1, uploads::camera_block(view_proj, inverse, eye))
            == inverse@,
        member(buffer_layouts::CAMERA@, 2, uploads::camera_block(view_proj, inverse, eye))
            == eye@.push(ONE),
{
    lemma_declared();
}

proof fn lemma_light_slots(lights: Seq<GpuLight>, n: int)
    requires
        0 <= n,
    ensures
        uploads::light_slots(lights, n).len() == 8 * n,
    decreases n,
{
    if n > 0 {
        lemma_light_slots(lights, n - 1);
    }
}

proof fn lemma_light_at(lights: Seq<GpuLight>, n: int, k: int)
    requires
        0 <= k < n,
        k < lights.len(),
    ensures
        uploads::light_slots(lights, n).len() == 8 * n,
        uploads::light_slots(lights, n).subrange(8 * k, 8 * k + 8) == uploads::light_block(
            lights[k],
        ),
    decreases n,
{
    lemma_light_slots(lights, n);
    lemma_light_slots(lights, n - 1);
    let all = uploads::light_slots(lights, n);
    let before = uploads::light_slots(lights, n - 1);
    if k == n - 1 {
        assert(all.subrange(8 * k, 8 * k + 8) =~= uploads::light_block(lights[k]));
    } else {
        lemma_light_at(lights, n - 1, k);
        assert(all.subrange(8 * k, 8 * k + 8) =~= before.subrange(8 * k, 8 * k + 8));
    }
}

/// The lighting buffer has the declared size; the ambient color, the number of lights and light
/// `k`, where it is not dropped, stand where they are declared.
pub proof fn lighting_contents_follow_the_layout(
    ambient: [Bits; 3],
    lights: Seq<GpuLight>,
    k: int,
)
    ensures
        buffer_layouts::LIGHTING@[0].0 == "ambient_color",
        buffer_layouts::LIGHTING@[1].0 == "lights",
        buffer_layouts::LIGHTING@[2].0 == "light_count",
        uploads::lighting_block(ambient, lights).len() * 4 == buffer_layouts::span_of(
            buffer_layouts::LIGHTING@,
        ),
        member(buffer_layouts::LIGHTING@, 0, uploads::lighting_block(ambient, lights))
            == ambient@.push(ONE),
        0 <= k < lights.len() && k < buffer_layouts::MAX_LIGHTS ==> member(
            buffer_layouts::LIGHTING@,
            1,
            uploads::lighting_block(ambient, lights),
        ).subrange(8 * k, 8 * k + 8) == uploads::light_block(lights[k]),
        member(buffer_layouts::LIGHTING@, 2, uploads::lighting_block(ambient, lights)) == seq![
            renderer::capped(lights.len(), buffer_layouts::MAX_LIGHTS as nat) as u32,
        ],
{
    lemma_declared();
    lemma_light_slots(lights, 4);
    let block = uploads::lighting_block(ambient, lights);
    assert(member(buffer_layouts::LIGHTING@, 0, block) =~= ambient@.push(ONE));
    let slots = member(buffer_layouts::LIGHTING@, 1, block);
    assert(slots =~= uploads::light_slots(lights, 4));
    if 0 <= k < lights.len() && k < buffer_layouts::MAX_LIGHTS {
        lemma_light_at(lights, 4, k);
    }
}

/// Words of light record `k` in the contents of the lighting buffer.
pub open spec fn light_record(block: Seq<u32>, k: int) -> Seq<u32> {
    let words = (buffer_layouts::span_of(buffer_layouts::LIGHT@) / 4) as int;
    member(buffer_layouts::LIGHTING@, 1, block).subrange(k * words, (k + 1) * words)
}

proof fn lemma_empty_slot(lights: Seq<GpuLight>, n: int, k: int)
    requires
        lights.len() <= k < n,
    ensures
        uploads::light_slots(lights, n).len() == 8 * n,
        uploads::light_slots(lights, n).subrange(8 * k, 8 * k + 8) == Seq::new(8, |i: int| 0u32),
    decreases n,
{
    lemma_light_slots(lights, n);
    lemma_light_slots(lights, n - 1);
    let all = uploads::light_slots(lights, n);
    let before = uploads::light_slots(lights, n - 1);
    if k == n - 1 {
        assert(all.subrange(8 * k, 8 * k + 8) =~= Seq::new(8, |i: int| 0u32));
    } else {
        lemma_empty_slot(lights, n - 1, k);
        assert(all.subrange(8 * k, 8 * k + 8) =~= before.subrange(8 * k, 8 * k + 8));
    }
}

proof fn lemma_light_members()
    ensures
        buffer_layouts::LIGHT@.len() == 2,
        buffer_layouts::offset_of(buffer_layouts::LIGHT@, 0) == 0,
        buffer_layouts::offset_of(buffer_layouts::LIGHT@, 1) == 16,
        buffer_layouts::span_of(buffer_layouts::LIGHT@) == 32,
{
    let fields = buffer_layouts::LIGHT@;
    let none = fields.subrange(0, 0);
    let one = fields.subrange(0, 1);
    assert(one.drop_last() == none);
    assert(buffer_layouts::end_of(none) == 0);
    assert(buffer_layouts::round_up(0, 16) == 0);
    assert(buffer_layouts::end_of(one) == 16);
    assert(buffer_layouts::round_up(16, 16) == 16);
    buffer_layouts::lemma_light_span();
}

proof fn lemma_record(block: Seq<u32>, k: int)
    ensures
        light_record(block, k) == member(buffer_layouts::LIGHTING@, 1, block).subrange(
            8 * k,
            8 * k + 8,
        ),
{
    lemma_light_members();
    let words = (buffer_layouts::span_of(buffer_layouts::LIGHT@) / 4) as int;
    assert(words == 8);
    assert(k * words == 8 * k && (k + 1) * words == 8 * k + 8) by (nonlinear_arith)
        requires
            words == 8,
    ;
}

/// Every light that is not dropped stands in its record as the shaders read it: its direction as
/// it was given, followed by zero, where the direction is declared, and its color, followed by its
/// intensity, where the color is declared.
pub proof fn light_members_stand_where_they_are_declared(
    ambient: [Bits; 3],
    lights: Seq<GpuLight>,
    k: int,
)
    requires
        0 <= k < lights.len(),
        k < buffer_layouts::MAX_LIGHTS,
    ensures
        buffer_layouts::LIGHT@[0].0 == "direction",
        buffer_layouts::LIGHT@[1].0 == "color",
        ({
            let record = light_record(uploads::lighting_block(ambient, lights), k);
            let light = lights[k];
            &&& member(buffer_layouts::LIGHT@, 0, record) == seq![
                light.direction@[0],
                light.direction@[1],
                light.direction@[2],
                0u32,
            ]
            &&& member(buffer_layouts::LIGHT@, 1, record) == seq![
                light.color@[0],
                light.color@[1],
                light.color@[2],
                light.intensity,
            ]
        }),
{
    lemma_light_members();
    lighting_contents_follow_the_layout(ambient, lights, k);
    let record = light_record(uploads::lighting_block(ambient, lights), k);
    let light = lights[k];
    lemma_record(uploads::lighting_block(ambient, lights), k);
    assert(record == uploads::light_block(light));
    assert(member(buffer_layouts::LIGHT@, 0, record) =~= seq![
        light.direction@[0],
        light.direction@[1],
        light.direction@[2],
        0u32,
    ]);
    assert(member(buffer_layouts::LIGHT@, 1, record) =~= seq![
        light.color@[0],
        light.color@[1],
        light.color@[2],
        light.intensity,
    ]);
}

/// Records without a light hold zeros, and the number of lights is that of the records with one.
pub proof fn records_without_a_light_are_empty(ambient: [Bits; 3], lights: Seq<GpuLight>, k: int)
    requires
        lights.len() <= k < buffer_layouts::MAX_LIGHTS,
    ensures
        light_record(uploads::lighting_block(ambient, lights), k) == Seq::new(8, |i: int| 0u32),
        member(buffer_layouts::LIGHTING@, 2, uploads::lighting_block(ambient, lights)) == seq![
            lights.len() as u32,
        ],
{
    let block = uploads::lighting_block(ambient, lights);
    lemma_record(block, k);
    lemma_empty_slot(lights, 4, k);
    assert(member(buffer_layouts::LIGHTING@, 1, block) == uploads::light_slots(lights, 4)) by {
        lemma_declared();
        lemma_light_slots(lights, 4);
    }
    lighting_contents_follow_the_layout(ambient, lights, 0);
}

/// Lights behind the last record change nothing.
pub proof fn lights_behind_the_last_record_are_dropped(ambient: [Bits; 3], lights: Seq<GpuLight>)
    requires
        buffer_layouts::MAX_LIGHTS <= lights.len(),
    ensures
        uploads::lighting_block(ambient, lights) == uploads::lighting_block(
            ambient,
            lights.subrange(0, buffer_layouts::MAX_LIGHTS as int),
        ),
        member(buffer_layouts::LIGHTING@, 2, uploads::lighting_block(ambient, lights)) == seq![
            buffer_layouts::MAX_LIGHTS,
        ],
{
    reveal_with_fuel(uploads::light_slots, 5);
    let first = lights.subrange(0, buffer_layouts::MAX_LIGHTS as int);
    assert(uploads::light_slots(lights, 4) == uploads::light_slots(first, 4));
    lighting_contents_follow_the_layout(ambient, lights, 0);
}

proof fn lemma_instance_at(instances: Seq<InstanceData>, n: int, k: int)
    requires
        0 <= n <= instances.len(),
    ensures
        uploads::instance_blocks(instances, n).len() == 36 * n,
        0 <= k < n ==> uploads::instance_blocks(instances, n).subrange(36 * k, 36 * k + 36)
            == uploads::instance_block(instances[k]),
    decreases n,
{
    if n > 0 {
        lemma_instance_at(instances, n - 1, k);
        let all = uploads::instance_blocks(instances, n);
        let before = uploads::instance_blocks(instances, n - 1);
        if k == n - 1 {
            assert(all.subrange(36 * k, 36 * k + 36) =~= uploads::instance_block(instances[k]));
        } else if 0 <= k < n - 1 {
            assert(all.subrange(36 * k, 36 * k + 36) =~= before.subrange(36 * k, 36 * k + 36));
        }
    }
}

/// The instance buffer is an array of declared records: record `k` starts at `k` times the
/// declared size, and its members stand where they are declared. Contents fit the buffer.
pub proof fn instance_contents_follow_the_layout(instances: Seq<InstanceData>, n: int, k: int)
    requires
        0 <= k < n <= instances.len(),
        n <= renderer::MAX_OBJECTS,
    ensures
        buffer_layouts::PER_OBJECT@[0].0 == "model",
        buffer_layouts::PER_OBJECT@[1].0 == "normal_matrix",
        buffer_layouts::PER_OBJECT@[2].0 == "material_index",
        buffer_layouts::span_of(buffer_layouts::PER_OBJECT@) == 144,
        uploads::instance_blocks(instances, n).len() * 4 <= buffer_layouts::span_of(
            buffer_layouts::PER_OBJECT@,
        ) * renderer::MAX_OBJECTS,
        uploads::instance_blocks(instances, n).subrange(36 * k, 36 * k + 36)
            == uploads::instance_block(instances[k]),
        member(buffer_layouts::PER_OBJECT@, 0, uploads::instance_block(instances[k]))
            == instances[k].model_matrix@,
        member(buffer_layouts::PER_OBJECT@, 1, uploads::instance_block(instances[k]))
            == instances[k].normal_matrix@,
        member(buffer_layouts::PER_OBJECT@, 2, uploads::instance_block(instances[k])) == seq![
            instances[k].material_index,
        ],
{
    lemma_declared();
    lemma_instance_at(instances, n, k);
    let block = uploads::instance_block(instances[k]);
    assert(member(buffer_layouts::PER_OBJECT@, 0, block) =~= instances[k].model_matrix@);
    assert(member(buffer_layouts::PER_OBJECT@, 1, block) =~= instances[k].normal_matrix@);
}

proof fn lemma_slot_at(slots: Seq<[Bits; 4]>, n: int, k: int)
    requires
        0 <= n <= slots.len(),
    ensures
        uploads::slot_words(slots, n).len() == 4 * n,
        0 <= k < n ==> uploads::slot_words(slots, n).subrange(4 * k, 4 * k + 4) == slots[k]@,
    decreases n,
{
    if n > 0 {
        lemma_slot_at(slots, n - 1, k);
        let all = uploads::slot_words(slots, n);
        let before = uploads::slot_words(slots, n - 1);
        if k == n - 1 {
            assert(all.subrange(4 * k, 4 * k + 4) =~= slots[k]@);
        } else if 0 <= k < n - 1 {
            assert(all.subrange(4 * k, 4 * k + 4) =~= before.subrange(4 * k, 4 * k + 4));
        }
    }
}

proof fn lemma_material_at(materials: Seq<MaterialRecord>, n: int, k: int)
    requires
        0 <= n <= materials.len(),
    ensures
        uploads::material_blocks(materials, n).len() == 80 * n,
        0 <= k < n ==> uploads::material_blocks(materials, n).subrange(80 * k, 80 * k + 80)
            == uploads::slot_words(materials[k].slots@, 20),
    decreases n,
{
    if n > 0 {
        lemma_material_at(materials, n - 1, k);
        lemma_slot_at(materials[n - 1].slots@, 20, 0);
        let all = uploads::material_blocks(materials, n);
        let before = uploads::material_blocks(materials, n - 1);
        if k == n - 1 {
            assert(all.subrange(80 * k, 80 * k + 80) =~= uploads::slot_words(
                materials[k].slots@,
                20,
            ));
        } else if 0 <= k < n - 1 {
            assert(all.subrange(80 * k, 80 * k + 80) =~= before.subrange(80 * k, 80 * k + 80));
        }
    }
}

/// The material buffer is an array of declared records: record `k` starts at `k` times the
/// record's size, and slot `s` at `s` times the slot's. Contents fit the buffer.
pub proof fn material_contents_follow_the_layout(
    materials: Seq<MaterialRecord>,
    n: int,
    k: int,
    s: int,
)
    requires
        0 <= k < n <= materials.len(),
        n <= renderer::MAX_MATERIALS,
        0 <= s < openpbr::OPENPBR_SLOTS@.len(),
    ensures
        openpbr::OPENPBR_SLOTS@.len() * openpbr::SLOT_BYTES == openpbr::OPENPBR_MATERIAL_SIZE,
        uploads::material_blocks(materials, n).len() * 4 <= openpbr::OPENPBR_MATERIAL_SIZE
            * renderer::MAX_MATERIALS,
        uploads::material_blocks(materials, n).subrange(
            80 * k + 4 * s,
            80 * k + 4 * s + 4,
        ) == materials[k].slots@[s]@,
{
    lemma_material_at(materials, n, k);
    lemma_slot_at(materials[k].slots@, 20, s);
    let all = uploads::material_blocks(materials, n);
    let record = all.subrange(80 * k, 80 * k + 80);
    assert(all.subrange(80 * k + 4 * s, 80 * k + 4 * s + 4) =~= record.subrange(4 * s, 4 * s + 4));
}

/// The parameter buffer has the size that its bindings demand, which covers the declared record,
/// and its members stand where they are declared.
pub proof fn bloom_contents_follow_the_layout(params: BloomUniform)
    ensures
        buffer_layouts::BLOOM@[0].0 == "threshold",
        buffer_layouts::BLOOM@[1].0 == "intensity",
        buffer_layouts::BLOOM@[2].0 == "mode",
        uploads::bloom_block(params).len() * 4 == bloom_generated::BLOOM_UNIFORM_BYTES,
        buffer_layouts::span_of(buffer_layouts::BLOOM@) <= bloom_generated::BLOOM_UNIFORM_BYTES,
        member(buffer_layouts::BLOOM@, 0, uploads::bloom_block(params)) == seq![params.threshold],
        member(buffer_layouts::BLOOM@, 1, uploads::bloom_block(params)) == seq![params.intensity],
        member(buffer_layouts::BLOOM@, 2, uploads::bloom_block(params)) == seq![params.mode],
{
    lemma_declared();
}

proof fn lemma_bytes_of_a_word(a: u32, b: u32)
    requires
        uploads::byte_of(a, 0) == uploads::byte_of(b, 0),
        uploads::byte_of(a, 1) == uploads::byte_of(b, 1),
        uploads::byte_of(a, 2) == uploads::byte_of(b, 2),
        uploads::byte_of(a, 3) == uploads::byte_of(b, 3),
    ensures
        a == b,
{
    assert(a == b) by (bit_vector)
        requires
            a % 256u32 == b % 256u32,
            (a / 256u32) % 256u32 == (b / 256u32) % 256u32,
            (a / 65536u32) % 256u32 == (b / 65536u32) % 256u32,
            (a / 16777216u32) % 256u32 == (b / 16777216u32) % 256u32,
    ;
}

/// The bytes of a buffer determine its words: on a machine of either byte order, contents with
/// the same bytes are the same.
pub proof fn bytes_determine_the_words(a: Seq<u32>, b: Seq<u32>, bytes: Seq<u8>)
    requires
        (uploads::lowest_first(a, bytes) && uploads::lowest_first(b, bytes)) || (
        uploads::highest_first(a, bytes) && uploads::highest_first(b, bytes)),
    ensures
        a == b,
{
    assert(a.len() == b.len());
    assert forall|i: int| 0 <= i < a.len() implies a[i] == b[i] by {
        let at = 4 * i;
        assert(at / 4 == i && (at + 1) / 4 == i && (at + 2) / 4 == i && (at + 3) / 4 == i);
        assert(at % 4 == 0 && (at + 1) % 4 == 1 && (at + 2) % 4 == 2 && (at + 3) % 4 == 3);
        if uploads::lowest_first(a, bytes) && uploads::lowest_first(b, bytes) {
            assert(bytes[at] == uploads::byte_of(a[i], 0));
            assert(bytes[at + 1] == uploads::byte_of(a[i], 1));
            assert(bytes[at + 2] == uploads::byte_of(a[i], 2));
            assert(bytes[at + 3] == uploads::byte_of(a[i], 3));
        } else {
            assert(bytes[at] == uploads::byte_of(a[i], 3));
            assert(bytes[at + 1] == uploads::byte_of(a[i], 2));
            assert(bytes[at + 2] == uploads::byte_of(a[i], 1));
            assert(bytes[at + 3] == uploads::byte_of(a[i], 0));
        }
        lemma_bytes_of_a_word(a[i], b[i]);
    }
    assert(a =~= b);
}

} // verus!
