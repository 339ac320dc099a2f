//! The material record that every shading pass reads.
use vstd::prelude::*;
#[allow(unused_imports)]
use vstd::string::*;

verus! {

/// Name of the material record.
pub const OPENPBR_WGSL_NAME: &'static str = "OpenPBRMaterial";

/// Slots of the material record, in declaration order. Every slot is a `vec4<f32>`.
pub const OPENPBR_SLOTS: [&'static str; 20] = [
    "base_params",
    "base_color",
    "specular_params",
    "specular_color",
    "transmission_params",
    "transmission_color",
    "transmission_scatter",
    "subsurface_params",
    "subsurface_color",
    "subsurface_radius_scale_gb",
    "fuzz_params",
    "fuzz_color",
    "coat_params",
    "coat_color",
    "coat_ior",
    "thin_film_params",
    "emission_params",
    "emission_color",
    "geometry_params",
    "geometry_params2",
];

/// Bytes of one slot.
pub const SLOT_BYTES: u32 = 16;

/// Bytes of the material record.
pub const OPENPBR_MATERIAL_SIZE: u32 = 320;

/// One line per slot.
pub open spec fn slots_text(slots: Seq<&'static str>) -> Seq<char>
    decreases slots.len(),
{
    if slots.len() == 0 {
        Seq::empty()
    } else {
        slots_text(slots.drop_last()) + ("    "@ + slots.last()@ + ": vec4<f32>,\n"@)
    }
}

/// Declaration of the material record.
pub open spec fn openpbr_text() -> Seq<char> {
    "\nstruct OpenPBRMaterial {\n"@ + slots_text(OPENPBR_SLOTS@) + "};\n"@
}

/// Declaration of the material record, with a line feed on either side.
pub fn openpbr_material_decl() -> (out: String)
    ensures
        out@ == openpbr_text(),
{
    let mut out: String = "\nstruct OpenPBRMaterial {\n".to_owned();
    let ghost before = out@;
    let ghost slots = OPENPBR_SLOTS@;
    assert(slots.subrange(0, 0) == Seq::<&'static str>::empty());
    assert(before + Seq::<char>::empty() == before);
    for i in 0..20usize
        invariant
            slots == OPENPBR_SLOTS@,
            slots.len() == 20,
            out@ == before + slots_text(slots.subrange(0, i as int)),
    {
        proof {
            let next = slots.subrange(0, i + 1);
            assert(next.drop_last() == slots.subrange(0, i as int));
            assert(next.last() == slots[i as int]);
        }
        out.append("    ");
        out.append(OPENPBR_SLOTS[i]);
        out.append(": vec4<f32>,\n");
        assert(out@ == before + slots_text(slots.subrange(0, i + 1)));
    }
    assert(slots.subrange(0, 20) == slots);
    out.append("};\n");
    out
}

} // verus!
