//! Surface materials. Numbers are single-precision bit patterns: nothing here computes with them.
use vstd::prelude::*;

use crate::scene::{Bits, MaterialDesc, ONE};
use crate::shaders::openpbr;
use crate::shaders::shading;

verus! {

/// 1.5 as a single-precision number.
pub const ONE_AND_A_HALF: Bits = 0x3FC0_0000;

/// 0.8 as a single-precision number.
pub const FOUR_FIFTHS: Bits = 0x3F4C_CCCD;

/// 0.5 as a single-precision number.
pub const ONE_HALF: Bits = 0x3F00_0000;

/// A material of seven groups of four components.
#[derive(Clone, Copy, Debug, PartialEq, Eq)]
pub struct Material {
    pub base_color: [Bits; 4],
    /// Emitted color, with its intensity behind it.
    pub emission_color: [Bits; 4],
    /// Metalness, roughness, specular weight and coat weight.
    pub pbr_params: [Bits; 4],
    /// Specular index of refraction, subsurface weight, sheen weight and coat roughness.
    pub ior_params: [Bits; 4],
    pub subsurface_color: [Bits; 4],
    pub coat_color: [Bits; 4],
    pub sheen_color: [Bits; 4],
}

/// View of a [`Material`].
#[verifier::ext_equal]
pub struct MaterialView {
    pub base_color: Seq<Bits>,
    pub emission_color: Seq<Bits>,
    pub pbr_params: Seq<Bits>,
    pub ior_params: Seq<Bits>,
    pub subsurface_color: Seq<Bits>,
    pub coat_color: Seq<Bits>,
    pub sheen_color: Seq<Bits>,
}

impl View for Material {
    type V = MaterialView;

    open spec fn view(&self) -> MaterialView {
        MaterialView {
            base_color: self.base_color@,
            emission_color: self.emission_color@,
            pbr_params: self.pbr_params@,
            ior_params: self.ior_params@,
            subsurface_color: self.subsurface_color@,
            coat_color: self.coat_color@,
            sheen_color: self.sheen_color@,
        }
    }
}

/// Four zeros.
pub open spec fn zeros() -> Seq<Bits> {
    seq![0, 0, 0, 0]
}

/// A material without emission, subsurface scattering, coat or sheen.
pub open spec fn plain(base_color: Seq<Bits>, metalness: Bits, roughness: Bits) -> MaterialView {
    MaterialView {
        base_color,
        emission_color: zeros(),
        pbr_params: seq![metalness, roughness, ONE, 0],
        ior_params: seq![ONE_AND_A_HALF, 0, 0, 0],
        subsurface_color: zeros(),
        coat_color: zeros(),
        sheen_color: zeros(),
    }
}

impl Material {
    /// A material without emission, subsurface scattering, coat or sheen.
    pub fn pbr(base_color: [Bits; 4], metalness: Bits, roughness: Bits) -> (m: Material)
        ensures
            m@ == plain(base_color@, metalness, roughness),
    {
        let m = Material {
            base_color,
            emission_color: [0, 0, 0, 0],
            pbr_params: [metalness, roughness, ONE, 0],
            ior_params: [ONE_AND_A_HALF, 0, 0, 0],
            subsurface_color: [0, 0, 0, 0],
            coat_color: [0, 0, 0, 0],
            sheen_color: [0, 0, 0, 0],
        };
        assert(m@ =~= plain(base_color@, metalness, roughness));
        m
    }

    /// Metalness.
    pub fn metalness(&self) -> (v: Bits)
        ensures
            v == self@.pbr_params[0],
    {
        self.pbr_params[0]
    }

    /// Roughness.
    pub fn roughness(&self) -> (v: Bits)
        ensures
            v == self@.pbr_params[1],
    {
        self.pbr_params[1]
    }

    /// Weight of the specular layer.
    pub fn specular_weight(&self) -> (v: Bits)
        ensures
            v == self@.pbr_params[2],
    {
        self.pbr_params[2]
    }

    /// Weight of the coat.
    pub fn coat_weight(&self) -> (v: Bits)
        ensures
            v == self@.pbr_params[3],
    {
        self.pbr_params[3]
    }

    /// Index of refraction of the specular layer.
    pub fn specular_ior(&self) -> (v: Bits)
        ensures
            v == self@.ior_params[0],
    {
        self.ior_params[0]
    }

    /// Weight of subsurface scattering.
    pub fn subsurface_weight(&self) -> (v: Bits)
        ensures
            v == self@.ior_params[1],
    {
        self.ior_params[1]
    }

    /// Weight of the sheen.
    pub fn sheen_weight(&self) -> (v: Bits)
        ensures
            v == self@.ior_params[2],
    {
        self.ior_params[2]
    }

    /// Roughness of the coat.
    pub fn coat_roughness(&self) -> (v: Bits)
        ensures
            v == self@.ior_params[3],
    {
        self.ior_params[3]
    }

    /// Sets the metalness.
    pub fn set_metalness(&mut self, v: Bits)
        ensures
            final(self)@ == (MaterialView {
                pbr_params: old(self)@.pbr_params.update(0, v),
                ..old(self)@
            }),
    {
        self.pbr_params[0] = v;
        assert(self@ =~= (MaterialView {
            pbr_params: old(self)@.pbr_params.update(0, v),
            ..old(self)@
        }));
    }

    /// Sets the roughness.
    pub fn set_roughness(&mut self, v: Bits)
        ensures
            final(self)@ == (MaterialView {
                pbr_params: old(self)@.pbr_params.update(1, v),
                ..old(self)@
            }),
    {
        self.pbr_params[1] = v;
        assert(self@ =~= (MaterialView {
            pbr_params: old(self)@.pbr_params.update(1, v),
            ..old(self)@
        }));
    }

    /// Sets the weight of the specular layer.
    pub fn set_specular_weight(&mut self, v: Bits)
        ensures
            final(self)@ == (MaterialView {
                pbr_params: old(self)@.pbr_params.update(2, v),
                ..old(self)@
            }),
    {
        self.pbr_params[2] = v;
        assert(self@ =~= (MaterialView {
            pbr_params: old(self)@.pbr_params.update(2, v),
            ..old(self)@
        }));
    }

    /// Sets the index of refraction of the specular layer.
    pub fn set_specular_ior(&mut self, v: Bits)
        ensures
            final(self)@ == (MaterialView {
                ior_params: old(self)@.ior_params.update(0, v),
                ..old(self)@
            }),
    {
        self.ior_params[0] = v;
        assert(self@ =~= (MaterialView {
            ior_params: old(self)@.ior_params.update(0, v),
            ..old(self)@
        }));
    }

    /// Sets the weight of the coat.
    pub fn set_coat_weight(&mut self, v: Bits)
        ensures
            final(self)@ == (MaterialView {
                pbr_params: old(self)@.pbr_params.update(3, v),
                ..old(self)@
            }),
    {
        self.pbr_params[3] = v;
        assert(self@ =~= (MaterialView {
            pbr_params: old(self)@.pbr_params.update(3, v),
            ..old(self)@
        }));
    }

    /// Sets weight and color of subsurface scattering.
    pub fn set_subsurface(&mut self, weight: Bits, color: [Bits; 3])
        ensures
            final(self)@ == (MaterialView {
                ior_params: old(self)@.ior_params.update(1, weight),
                subsurface_color: color@.push(0),
                ..old(self)@
            }),
    {
        self.ior_params[1] = weight;
        self.subsurface_color = [color[0], color[1], color[2], 0];
        assert(self@ =~= (MaterialView {
            ior_params: old(self)@.ior_params.update(1, weight),
            subsurface_color: color@.push(0),
            ..old(self)@
        }));
    }

    /// Sets weight and color of the sheen.
    pub fn set_sheen(&mut self, weight: Bits, color: [Bits; 3])
        ensures
            final(self)@ == (MaterialView {
                ior_params: old(self)@.ior_params.update(2, weight),
                sheen_color: color@.push(0),
                ..old(self)@
            }),
    {
        self.ior_params[2] = weight;
        self.sheen_color = [color[0], color[1], color[2], 0];
        assert(self@ =~= (MaterialView {
            ior_params: old(self)@.ior_params.update(2, weight),
            sheen_color: color@.push(0),
            ..old(self)@
        }));
    }

    /// Sets weight, color and roughness of the coat.
    pub fn set_coat(&mut self, weight: Bits, color: [Bits; 3], roughness: Bits)
        ensures
            final(self)@ == (MaterialView {
                pbr_params: old(self)@.pbr_params.update(3, weight),
                ior_params: old(self)@.ior_params.update(3, roughness),
                coat_color: color@.push(0),
                ..old(self)@
            }),
    {
        self.pbr_params[3] = weight;
        self.ior_params[3] = roughness;
        self.coat_color = [color[0], color[1], color[2], 0];
        assert(self@ =~= (MaterialView {
            pbr_params: old(self)@.pbr_params.update(3, weight),
            ior_params: old(self)@.ior_params.update(3, roughness),
            coat_color: color@.push(0),
            ..old(self)@
        }));
    }

    /// Sets the emitted color and its intensity.
    pub fn set_emission(&mut self, color: [Bits; 3], intensity: Bits)
        ensures
            final(self)@ == (MaterialView {
                emission_color: color@.push(intensity),
                ..old(self)@
            }),
    {
        self.emission_color = [color[0], color[1], color[2], intensity];
        assert(self@ =~= (MaterialView {
            emission_color: color@.push(intensity),
            ..old(self)@
        }));
    }
}

impl Default for Material {
    /// Light gray, rough and not metallic.
    fn default() -> (m: Material)
        ensures
            m@ == plain(seq![FOUR_FIFTHS, FOUR_FIFTHS, FOUR_FIFTHS, ONE], 0, ONE_HALF),
    {
        let gray: [Bits; 4] = [FOUR_FIFTHS, FOUR_FIFTHS, FOUR_FIFTHS, ONE];
        assert(gray@ =~= seq![FOUR_FIFTHS, FOUR_FIFTHS, FOUR_FIFTHS, ONE]);
        Material::pbr(gray, 0, ONE_HALF)
    }
}

/// A material record: one group of four components per slot.
#[derive(Clone, Copy, Debug, PartialEq, Eq)]
pub struct MaterialRecord {
    pub slots: [[Bits; 4]; 20],
}

impl View for MaterialRecord {
    type V = Seq<Seq<Bits>>;

    open spec fn view(&self) -> Seq<Seq<Bits>> {
        self.slots@.map_values(|slot: [Bits; 4]| slot@)
    }
}

/// Records that descriptions start from.
#[derive(Clone, Copy, Debug, PartialEq, Eq)]
pub struct MaterialPresets {
    pub dielectric: MaterialRecord,
    pub metal: MaterialRecord,
    pub coat: MaterialRecord,
}

/// Slot of the base color.
pub const BASE_COLOR_SLOT: usize = 1;

/// Slot of the specular parameters. The second component is the roughness.
pub const SPECULAR_SLOT: usize = 2;

/// Slot of the coat parameters: weight, then roughness.
pub const COAT_SLOT: usize = 12;

/// The record with a base color. The fourth component of the slot is kept.
pub open spec fn colored(record: Seq<Seq<Bits>>, color: Seq<Bits>) -> Seq<Seq<Bits>> {
    record.update(BASE_COLOR_SLOT as int, color.push(record[BASE_COLOR_SLOT as int][3]))
}

/// The record of a description: the preset of its kind with what the description says.
pub open spec fn described(material: MaterialDesc, presets: MaterialPresets) -> Seq<Seq<Bits>> {
    match material {
        MaterialDesc::Dielectric { base_color, roughness } => {
            let record = colored(presets.dielectric@, base_color@);
            record.update(
                SPECULAR_SLOT as int,
                record[SPECULAR_SLOT as int].update(1, roughness),
            )
        },
        MaterialDesc::Metal { base_color, roughness } => {
            let record = colored(presets.metal@, base_color@);
            record.update(
                SPECULAR_SLOT as int,
                record[SPECULAR_SLOT as int].update(1, roughness),
            )
        },
        MaterialDesc::Coat { base_color, coat_weight, coat_roughness } => {
            let record = colored(presets.coat@, base_color@);
            record.update(
                COAT_SLOT as int,
                record[COAT_SLOT as int].update(0, coat_weight).update(1, coat_roughness),
            )
        },
    }
}

fn set_slot(record: &mut MaterialRecord, i: usize, slot: [Bits; 4])
    requires
        i < 20,
    ensures
        final(record)@ == old(record)@.update(i as int, slot@),
{
    record.slots[i] = slot;
    assert(record@ =~= old(record)@.update(i as int, slot@));
}

/// The record of a description.
pub fn material_to_gpu(material: MaterialDesc, presets: &MaterialPresets) -> (record:
    MaterialRecord)
    ensures
        record@ == described(material, *presets),
{
    let mut record = match material {
        MaterialDesc::Dielectric { .. } => presets.dielectric,
        MaterialDesc::Metal { .. } => presets.metal,
        MaterialDesc::Coat { .. } => presets.coat,
    };
    let ghost preset = record@;
    let c = match material {
        MaterialDesc::Dielectric { base_color, .. } => base_color,
        MaterialDesc::Metal { base_color, .. } => base_color,
        MaterialDesc::Coat { base_color, .. } => base_color,
    };
    let base: [Bits; 4] = [c[0], c[1], c[2], record.slots[BASE_COLOR_SLOT][3]];
    assert(base@ =~= c@.push(preset[BASE_COLOR_SLOT as int][3]));
    set_slot(&mut record, BASE_COLOR_SLOT, base);
    let ghost tinted = record@;
    assert(tinted =~= colored(preset, c@));
    match material {
        MaterialDesc::Dielectric { roughness, .. } | MaterialDesc::Metal { roughness, .. } => {
            let s: [Bits; 4] = record.slots[SPECULAR_SLOT];
            let slot: [Bits; 4] = [s[0], roughness, s[2], s[3]];
            assert(slot@ =~= tinted[SPECULAR_SLOT as int].update(1, roughness));
            set_slot(&mut record, SPECULAR_SLOT, slot);
        },
        MaterialDesc::Coat { coat_weight, coat_roughness, .. } => {
            let s: [Bits; 4] = record.slots[COAT_SLOT];
            let slot: [Bits; 4] = [coat_weight, coat_roughness, s[2], s[3]];
            assert(slot@ =~= tinted[COAT_SLOT as int].update(0, coat_weight).update(
                1,
                coat_roughness,
            ));
            set_slot(&mut record, COAT_SLOT, slot);
        },
    }
    record
}

/// The shaders read back what a description says: the slots that it sets are the ones from which
/// the shaders take base color, specular roughness, coat weight and coat roughness, and every
/// other slot comes from the preset.
pub proof fn shaders_read_the_description(material: MaterialDesc, presets: MaterialPresets, i: int)
    requires
        0 <= i < 20,
    ensures
        openpbr::OPENPBR_SLOTS@[BASE_COLOR_SLOT as int] == "base_color",
        openpbr::OPENPBR_SLOTS@[SPECULAR_SLOT as int] == "specular_params",
        openpbr::OPENPBR_SLOTS@[COAT_SLOT as int] == "coat_params",
        shading::MATERIAL_LOCALS@[1] == ("base_color", "base_color", "rgb"),
        shading::MATERIAL_LOCALS@[5] == ("specular_roughness", "specular_params", "y"),
        shading::MATERIAL_LOCALS@[26] == ("coat_weight", "coat_params", "x"),
        shading::MATERIAL_LOCALS@[27] == ("coat_roughness", "coat_params", "y"),
        described(material, presets).len() == 20,
        match material {
            MaterialDesc::Dielectric { base_color, roughness } => {
                &&& described(material, presets)[BASE_COLOR_SLOT as int].subrange(0, 3)
                    == base_color@
                &&& described(material, presets)[SPECULAR_SLOT as int][1] == roughness
                &&& i != BASE_COLOR_SLOT && i != SPECULAR_SLOT ==> described(material, presets)[i]
                    == presets.dielectric@[i]
            },
            MaterialDesc::Metal { base_color, roughness } => {
                &&& described(material, presets)[BASE_COLOR_SLOT as int].subrange(0, 3)
                    == base_color@
                &&& described(material, presets)[SPECULAR_SLOT as int][1] == roughness
                &&& i != BASE_COLOR_SLOT && i != SPECULAR_SLOT ==> described(material, presets)[i]
                    == presets.metal@[i]
            },
            MaterialDesc::Coat { base_color, coat_weight, coat_roughness } => {
                &&& described(material, presets)[BASE_COLOR_SLOT as int].subrange(0, 3)
                    == base_color@
                &&& described(material, presets)[COAT_SLOT as int][0] == coat_weight
                &&& described(material, presets)[COAT_SLOT as int][1] == coat_roughness
                &&& i != BASE_COLOR_SLOT && i != COAT_SLOT ==> described(material, presets)[i]
                    == presets.coat@[i]
            },
        },
{
    match material {
        MaterialDesc::Dielectric { base_color, .. } => {
            assert(described(material, presets)[1].subrange(0, 3) =~= base_color@);
        },
        MaterialDesc::Metal { base_color, .. } => {
            assert(described(material, presets)[1].subrange(0, 3) =~= base_color@);
        },
        MaterialDesc::Coat { base_color, .. } => {
            assert(described(material, presets)[1].subrange(0, 3) =~= base_color@);
        },
    }
}

/// The preset that a description starts from.
pub open spec fn preset_of(material: MaterialDesc, presets: MaterialPresets) -> Seq<Seq<Bits>> {
    match material {
        MaterialDesc::Dielectric { .. } => presets.dielectric@,
        MaterialDesc::Metal { .. } => presets.metal@,
        MaterialDesc::Coat { .. } => presets.coat@,
    }
}

/// A description changes only the components that it names: of the preset of its kind, every
/// component that is not part of the base color, nor the roughness or the coat that it gives, is
/// kept.
pub proof fn descriptions_change_only_what_they_name(
    material: MaterialDesc,
    presets: MaterialPresets,
    i: int,
    c: int,
)
    requires
        0 <= i < 20,
        0 <= c < 4,
        !(openpbr::OPENPBR_SLOTS@[i] == "base_color" && c < 3),
        material is Coat ==> !(openpbr::OPENPBR_SLOTS@[i] == "coat_params" && c < 2),
        !(material is Coat) ==> !(openpbr::OPENPBR_SLOTS@[i] == "specular_params" && c == 1),
    ensures
        described(material, presets).len() == 20,
        described(material, presets)[i].len() == 4,
        described(material, presets)[i][c] == preset_of(material, presets)[i][c],
{
    let preset = preset_of(material, presets);
    assert(preset.len() == 20);
    assert(preset[i].len() == 4);
    assert(i == BASE_COLOR_SLOT ==> openpbr::OPENPBR_SLOTS@[i] == "base_color");
    assert(i == SPECULAR_SLOT ==> openpbr::OPENPBR_SLOTS@[i] == "specular_params");
    assert(i == COAT_SLOT ==> openpbr::OPENPBR_SLOTS@[i] == "coat_params");
}

} // verus!
