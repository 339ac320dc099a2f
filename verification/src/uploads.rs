//! Contents of the renderer's buffers, as 32-bit words in the layout that the shaders declare.
use vstd::prelude::*;

use crate::bindings::BloomUniform;
use crate::material::MaterialRecord;
use crate::renderer;
use crate::renderer::{instance_count, light_count, material_count};
use crate::scene::{Bits, ONE};
use crate::shaders::buffer_layouts;

verus! {

/// Sixteen numbers of a matrix, column by column.
pub type Matrix = [Bits; 16];

/// A light of unit direction.
#[derive(Clone, Copy, Debug, PartialEq, Eq)]
pub struct GpuLight {
    pub direction: [Bits; 3],
    pub intensity: Bits,
    pub color: [Bits; 3],
}

/// A drawn instance.
#[derive(Clone, Copy, Debug, PartialEq, Eq)]
pub struct InstanceData {
    /// Local-to-world transform.
    pub model_matrix: Matrix,
    /// Inverse transpose of its linear part.
    pub normal_matrix: Matrix,
    /// Index into the materials.
    pub material_index: u32,
}

/// Appends the words of an array.
fn push_all<const N: usize>(out: &mut Vec<u32>, words: &[u32; N])
    ensures
        final(out)@ == old(out)@ + words@,
{
    let ghost before = out@;
    for i in 0..N
        invariant
            out@ == before + words@.subrange(0, i as int),
    {
        out.push(words[i]);
        assert(words@.subrange(0, i + 1) == words@.subrange(0, i as int).push(words@[i as int]));
    }
    assert(words@.subrange(0, N as int) == words@);
}

/// Contents of the camera buffer: view-projection, its inverse, and the eye.
pub open spec fn camera_block(view_proj: Matrix, inverse: Matrix, eye: [Bits; 3]) -> Seq<u32> {
    view_proj@ + inverse@ + eye@.push(ONE)
}

/// Contents of the camera buffer.
pub fn camera_words(view_proj: &Matrix, inverse: &Matrix, eye: &[Bits; 3]) -> (words: Vec<u32>)
    ensures
        words@ == camera_block(*view_proj, *inverse, *eye),
{
    let mut words: Vec<u32> = Vec::new();
    push_all(&mut words, view_proj);
    push_all(&mut words, inverse);
    push_all(&mut words, eye);
    words.push(ONE);
    assert(words@ =~= camera_block(*view_proj, *inverse, *eye));
    words
}

/// Words of one light: its direction, and its color with the intensity behind it.
pub open spec fn light_block(light: GpuLight) -> Seq<u32> {
    light.direction@.push(0) + light.color@.push(light.intensity)
}

/// Words of the first `n` light slots. Slots without a light hold zeros.
pub open spec fn light_slots(lights: Seq<GpuLight>, n: int) -> Seq<u32>
    decreases n,
{
    if n <= 0 {
        Seq::empty()
    } else if n <= lights.len() {
        light_slots(lights, n - 1) + light_block(lights[n - 1])
    } else {
        light_slots(lights, n - 1) + Seq::new(8, |i: int| 0u32)
    }
}

/// Contents of the lighting buffer: ambient color, four light slots, and the number of lights.
pub open spec fn lighting_block(ambient: [Bits; 3], lights: Seq<GpuLight>) -> Seq<u32> {
    ambient@.push(ONE) + light_slots(lights, buffer_layouts::MAX_LIGHTS as int) + seq![
        renderer::capped(lights.len(), buffer_layouts::MAX_LIGHTS as nat) as u32,
        0,
        0,
        0,
    ]
}

/// Contents of the lighting buffer. Lights behind the fourth are dropped.
pub fn lighting_words(ambient: &[Bits; 3], lights: &Vec<GpuLight>) -> (words: Vec<u32>)
    ensures
        words@ == lighting_block(*ambient, lights@),
{
    let mut words: Vec<u32> = Vec::new();
    push_all(&mut words, ambient);
    words.push(ONE);
    let ghost head = words@;
    assert(head =~= ambient@.push(ONE));
    for i in 0..4usize
        invariant
            i <= 4,
            words@ == head + light_slots(lights@, i as int),
    {
        let ghost before = words@;
        if i < lights.len() {
            let light = lights[i];
            push_all(&mut words, &light.direction);
            words.push(0);
            push_all(&mut words, &light.color);
            words.push(light.intensity);
            assert(words@ =~= before + light_block(lights@[i as int]));
        } else {
            let zeros: [u32; 8] = [0, 0, 0, 0, 0, 0, 0, 0];
            push_all(&mut words, &zeros);
            assert(zeros@ =~= Seq::new(8, |k: int| 0u32));
        }
        assert(words@ =~= head + light_slots(lights@, i + 1));
    }
    let tail: [u32; 4] = [light_count(lights.len()), 0, 0, 0];
    push_all(&mut words, &tail);
    assert(words@ =~= lighting_block(*ambient, lights@));
    words
}

/// Words of one instance.
pub open spec fn instance_block(instance: InstanceData) -> Seq<u32> {
    instance.model_matrix@ + instance.normal_matrix@ + seq![instance.material_index, 0, 0, 0]
}

/// Words of the first `n` instances.
pub open spec fn instance_blocks(instances: Seq<InstanceData>, n: int) -> Seq<u32>
    decreases n,
{
    if n <= 0 {
        Seq::empty()
    } else {
        instance_blocks(instances, n - 1) + instance_block(instances[n - 1])
    }
}

/// Contents of the instance buffer. Instances that do not fit are dropped.
pub fn instance_words(instances: &Vec<InstanceData>) -> (words: Vec<u32>)
    ensures
        words@ == instance_blocks(
            instances@,
            renderer::capped(instances@.len(), renderer::MAX_OBJECTS as nat) as int,
        ),
{
    let count: usize = instance_count(instances.len());
    let mut words: Vec<u32> = Vec::new();
    for i in 0..count
        invariant
            count <= instances@.len(),
            words@ == instance_blocks(instances@, i as int),
    {
        let ghost before = words@;
        let instance = instances[i];
        push_all(&mut words, &instance.model_matrix);
        push_all(&mut words, &instance.normal_matrix);
        let tail: [u32; 4] = [instance.material_index, 0, 0, 0];
        push_all(&mut words, &tail);
        assert(words@ =~= before + instance_block(instances@[i as int]));
    }
    words
}

/// Words of the first `n` slots of a material.
pub open spec fn slot_words(slots: Seq<[Bits; 4]>, n: int) -> Seq<u32>
    decreases n,
{
    if n <= 0 {
        Seq::empty()
    } else {
        slot_words(slots, n - 1) + slots[n - 1]@
    }
}

/// Words of the first `n` materials.
pub open spec fn material_blocks(materials: Seq<MaterialRecord>, n: int) -> Seq<u32>
    decreases n,
{
    if n <= 0 {
        Seq::empty()
    } else {
        material_blocks(materials, n - 1) + slot_words(materials[n - 1].slots@, 20)
    }
}

/// Contents of the material buffer. Materials that do not fit are dropped.
pub fn material_words(materials: &Vec<MaterialRecord>) -> (words: Vec<u32>)
    ensures
        words@ == material_blocks(
            materials@,
            renderer::capped(materials@.len(), renderer::MAX_MATERIALS as nat) as int,
        ),
{
    let count: usize = material_count(materials.len());
    let mut words: Vec<u32> = Vec::new();
    for i in 0..count
        invariant
            count <= materials@.len(),
            words@ == material_blocks(materials@, i as int),
    {
        let ghost before = words@;
        assert(before + slot_words(materials@[i as int].slots@, 0) =~= before);
        for k in 0..20usize
            invariant
                k <= 20,
                i < materials@.len(),
                words@ == before + slot_words(materials@[i as int].slots@, k as int),
        {
            let ghost so_far = words@;
            let slot: [Bits; 4] = materials[i].slots[k];
            push_all(&mut words, &slot);
            assert(words@ =~= before + slot_words(materials@[i as int].slots@, k + 1));
        }
    }
    words
}

/// Contents of the parameter buffer of the bloom and composite passes.
pub open spec fn bloom_block(params: BloomUniform) -> Seq<u32> {
    seq![params.threshold, params.intensity, params.mode, 0]
}

/// Contents of the parameter buffer of the bloom and composite passes.
pub fn bloom_words(params: BloomUniform) -> (words: Vec<u32>)
    ensures
        words@ == bloom_block(params),
{
    vec![params.threshold, params.intensity, params.mode, 0]
}

/// Byte `k` of a word, counted from the lowest.
pub open spec fn byte_of(word: u32, k: int) -> u8 {
    if k == 0 {
        (word % 256) as u8
    } else if k == 1 {
        (word / 256 % 256) as u8
    } else if k == 2 {
        (word / 65536 % 256) as u8
    } else {
        (word / 16777216 % 256) as u8
    }
}

/// The bytes are those of the words, the lowest of every word first.
pub open spec fn lowest_first(words: Seq<u32>, bytes: Seq<u8>) -> bool {
    &&& bytes.len() == 4 * words.len()
    &&& forall|j: int|
        0 <= j < bytes.len() ==> #[trigger] bytes[j] == byte_of(words[j / 4], j % 4)
}

/// The bytes are those of the words, the highest of every word first.
pub open spec fn highest_first(words: Seq<u32>, bytes: Seq<u8>) -> bool {
    &&& bytes.len() == 4 * words.len()
    &&& forall|j: int|
        0 <= j < bytes.len() ==> #[trigger] bytes[j] == byte_of(words[j / 4], 3 - j % 4)
}

/// `bytemuck::cast_slice` from words to bytes: the memory of the words, four bytes each. The
/// machine decides the order of the bytes of a word: lowest first or highest first, the same for
/// all words. The cast succeeds on every slice, as bytes need no alignment.
#[verifier::external_body]
fn cast_words(words: &[u32]) -> (bytes: &[u8])
    ensures
        lowest_first(words@, bytes@) || highest_first(words@, bytes@),
{
    bytemuck::cast_slice(words)
}

/// Buffer contents as bytes, in the byte order of the machine.
pub fn buffer_bytes(words: &Vec<u32>) -> (bytes: &[u8])
    ensures
        lowest_first(words@, bytes@) || highest_first(words@, bytes@),
{
    cast_words(words.as_slice())
}

} // verus!
