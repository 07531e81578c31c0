//! The material manager: resolves the fixed 256-entry color palette into
//! shared Phong materials, created lazily on first use of each index.

use std::rc::Rc;

use vstd::prelude::*;

use crate::basic_types::rc_clone;
use crate::structure::Material;
use crate::structure::PhongMaterialData;
use crate::structure::PaletteColor;

verus! {

/// The Phong material that palette color `c` resolves to: the default
/// material with `c` as its diffuse color.
pub open spec fn rvm_material_of(c: PaletteColor) -> Material {
    Material::PhongMaterial(
        PhongMaterialData {
            diffuse_color: c,
            specular_color: PaletteColor { red: 0u8, green: 0u8, blue: 0u8 },
            emissive_color: PaletteColor { red: 0u8, green: 0u8, blue: 0u8 },
            ambient_intensity_thousandths: 200u16,
            shininess_thousandths: 200u16,
            transparency_thousandths: 0u16,
        },
    )
}

/// The material manager caches the material of each palette index.
pub struct RVMMaterialManager {
    /// The material of each palette index, created on first use.
    materials: Vec<Option<Rc<Material>>>,
    /// The fixed 256-entry color palette.
    palette: Vec<PaletteColor>,
}

impl RVMMaterialManager {
    /// There is one palette slot and one cache slot per material id, and the
    /// cache only ever holds the material its palette color resolves to.
    pub closed spec fn wf(&self) -> bool {
        &&& self.materials@.len() == 256
        &&& self.palette@.len() == 256
        &&& forall|i: int|
            0 <= i < 256 ==> ((#[trigger] self.materials@[i]) matches Some(m) ==> *m
                == rvm_material_of(self.palette@[i]))
    }

    /// The fixed color palette.
    pub closed spec fn spec_palette(&self) -> Seq<PaletteColor> {
        self.palette@
    }

    /// The cached materials, one slot per palette index.
    pub closed spec fn spec_materials(&self) -> Seq<Option<Material>> {
        Seq::new(self.materials@.len(), |i: int| match self.materials@[i] {
            Some(m) => Some(*m),
            None => None,
        })
    }

    /// Creates a new material manager with an empty cache.
    pub fn new() -> (r: Self)
        ensures
            r.wf(),
            r.spec_palette().len() == 256,
            r.spec_materials().len() == 256,
            forall|i: int| 0 <= i < 256 ==> r.spec_materials()[i] is None,
    {
        let mut materials: Vec<Option<Rc<Material>>> = Vec::new();
        let mut i: usize = 0;
        while i < 256
            invariant
                materials@.len() == i,
                0 <= i <= 256,
                forall|k: int| 0 <= k < i ==> materials@[k] is None,
            decreases 256 - i,
        {
            materials.push(None);
            i = i + 1;
        }
        Self { materials, palette: rvm_color_palette() }
    }

    /// Returns the palette color of the given index.
    pub fn color(&self, index: u8) -> (r: PaletteColor)
        requires
            self.wf(),
        ensures
            r == self.spec_palette()[index as int],
    {
        self.palette[index as usize]
    }

    /// Returns the material of the given index.  If the material has not
    /// been created yet, it is created from the palette and cached, so that
    /// every use of one index shares one material.
    pub fn create_material(&mut self, index: u8) -> (r: Rc<Material>)
        requires
            old(self).wf(),
        ensures
            final(self).wf(),
            final(self).spec_palette() == old(self).spec_palette(),
            *r == rvm_material_of(old(self).spec_palette()[index as int]),
            final(self).spec_materials() == old(self).spec_materials().update(
                index as int,
                Some(*r),
            ),
    {
        let i = index as usize;
        proof {
            assert(self.materials@[i as int] matches Some(m) ==> *m == rvm_material_of(
                self.palette@[i as int],
            ));
        }
        let cached = match &self.materials[i] {
            Some(material) => Some(rc_clone(material)),
            None => None,
        };
        let r = match cached {
            Some(material) => material,
            None => {
                let material = Rc::new(
                    Material::PhongMaterial(
                        PhongMaterialData {
                            diffuse_color: self.palette[i],
                            specular_color: PaletteColor::new(0, 0, 0),
                            emissive_color: PaletteColor::new(0, 0, 0),
                            ambient_intensity_thousandths: 200,
                            shininess_thousandths: 200,
                            transparency_thousandths: 0,
                        },
                    ),
                );
                material
            },
        };
        proof {
            assert(*r == rvm_material_of(self.palette@[i as int]));
        }
        self.materials[i] = Some(rc_clone(&r));
        proof {
            assert(self.spec_materials() =~= old(self).spec_materials().update(
                index as int,
                Some(*r),
            ));
        }
        r
    }
}

/// The fixed RGB color palette of the format.
fn rvm_color_palette() -> (r: Vec<PaletteColor>)
    ensures
        r@.len() == 256,
{
    let colors: Vec<PaletteColor> = vec![
        PaletteColor::new(80, 80, 80),
        PaletteColor::new(0, 0, 0),
        PaletteColor::new(80, 0, 0),
        PaletteColor::new(93, 60, 0),
        PaletteColor::new(80, 80, 0),
        PaletteColor::new(0, 80, 0),
        PaletteColor::new(0, 93, 93),
        PaletteColor::new(0, 0, 80),
        PaletteColor::new(87, 0, 87),
        PaletteColor::new(80, 17, 17),
        PaletteColor::new(100, 100, 100),
        PaletteColor::new(98, 50, 44),
        PaletteColor::new(75, 75, 75),
        PaletteColor::new(66, 66, 66),
        PaletteColor::new(55, 40, 55),
        PaletteColor::new(96, 96, 96),
        PaletteColor::new(56, 14, 42),
        PaletteColor::new(0, 100, 50),
        PaletteColor::new(96, 87, 70),
        PaletteColor::new(93, 79, 20),
        PaletteColor::new(28, 46, 100),
        PaletteColor::new(93, 91, 67),
        PaletteColor::new(93, 7, 54),
        PaletteColor::new(14, 56, 14),
        PaletteColor::new(100, 65, 0),
        PaletteColor::new(93, 93, 88),
        PaletteColor::new(93, 46, 13),
        PaletteColor::new(28, 51, 71),
        PaletteColor::new(100, 100, 100),
        PaletteColor::new(18, 18, 31),
        PaletteColor::new(0, 0, 50),
        PaletteColor::new(80, 57, 62),
        PaletteColor::new(80, 36, 27),
        PaletteColor::new(0, 0, 0),
        PaletteColor::new(80, 0, 0),
        PaletteColor::new(93, 60, 0),
        PaletteColor::new(80, 80, 0),
        PaletteColor::new(0, 80, 0),
        PaletteColor::new(0, 93, 93),
        PaletteColor::new(0, 0, 80),
        PaletteColor::new(87, 0, 87),
        PaletteColor::new(80, 17, 17),
        PaletteColor::new(100, 100, 100),
        PaletteColor::new(98, 50, 44),
        PaletteColor::new(75, 75, 75),
        PaletteColor::new(66, 66, 66),
        PaletteColor::new(55, 40, 55),
        PaletteColor::new(96, 96, 96),
        PaletteColor::new(56, 14, 42),
        PaletteColor::new(0, 100, 50),
        PaletteColor::new(96, 87, 70),
        PaletteColor::new(93, 79, 20),
        PaletteColor::new(28, 46, 100),
        PaletteColor::new(93, 91, 67),
        PaletteColor::new(93, 7, 54),
        PaletteColor::new(14, 56, 14),
        PaletteColor::new(100, 65, 0),
        PaletteColor::new(93, 93, 88),
        PaletteColor::new(93, 46, 13),
        PaletteColor::new(28, 51, 71),
        PaletteColor::new(100, 100, 100),
        PaletteColor::new(18, 18, 31),
        PaletteColor::new(0, 0, 50),
        PaletteColor::new(80, 57, 62),
        PaletteColor::new(80, 36, 27),
        PaletteColor::new(80, 80, 80),
        PaletteColor::new(80, 80, 80),
        PaletteColor::new(80, 80, 80),
        PaletteColor::new(80, 80, 80),
        PaletteColor::new(80, 80, 80),
        PaletteColor::new(80, 80, 80),
        PaletteColor::new(80, 80, 80),
        PaletteColor::new(80, 80, 80),
        PaletteColor::new(80, 80, 80),
        PaletteColor::new(80, 80, 80),
        PaletteColor::new(80, 80, 80),
        PaletteColor::new(80, 80, 80),
        PaletteColor::new(80, 80, 80),
        PaletteColor::new(80, 80, 80),
        PaletteColor::new(80, 80, 80),
        PaletteColor::new(80, 80, 80),
        PaletteColor::new(80, 80, 80),
        PaletteColor::new(80, 80, 80),
        PaletteColor::new(80, 80, 80),
        PaletteColor::new(80, 80, 80),
        PaletteColor::new(80, 80, 80),
        PaletteColor::new(80, 80, 80),
        PaletteColor::new(80, 80, 80),
        PaletteColor::new(80, 80, 80),
        PaletteColor::new(80, 80, 80),
        PaletteColor::new(80, 80, 80),
        PaletteColor::new(80, 80, 80),
        PaletteColor::new(80, 80, 80),
        PaletteColor::new(80, 80, 80),
        PaletteColor::new(80, 80, 80),
        PaletteColor::new(80, 80, 80),
        PaletteColor::new(80, 80, 80),
        PaletteColor::new(80, 80, 80),
        PaletteColor::new(80, 80, 80),
        PaletteColor::new(80, 80, 80),
        PaletteColor::new(80, 80, 80),
        PaletteColor::new(80, 80, 80),
        PaletteColor::new(80, 80, 80),
        PaletteColor::new(80, 80, 80),
        PaletteColor::new(80, 80, 80),
        PaletteColor::new(80, 80, 80),
        PaletteColor::new(80, 80, 80),
        PaletteColor::new(80, 80, 80),
        PaletteColor::new(80, 80, 80),
        PaletteColor::new(80, 80, 80),
        PaletteColor::new(80, 80, 80),
        PaletteColor::new(80, 80, 80),
        PaletteColor::new(80, 80, 80),
        PaletteColor::new(80, 80, 80),
        PaletteColor::new(80, 80, 80),
        PaletteColor::new(80, 80, 80),
        PaletteColor::new(80, 80, 80),
        PaletteColor::new(80, 80, 80),
        PaletteColor::new(80, 80, 80),
        PaletteColor::new(80, 80, 80),
        PaletteColor::new(80, 80, 80),
        PaletteColor::new(80, 80, 80),
        PaletteColor::new(80, 80, 80),
        PaletteColor::new(80, 80, 80),
        PaletteColor::new(80, 80, 80),
        PaletteColor::new(80, 80, 80),
        PaletteColor::new(80, 80, 80),
        PaletteColor::new(80, 80, 80),
        PaletteColor::new(80, 80, 80),
        PaletteColor::new(80, 80, 80),
        PaletteColor::new(80, 80, 80),
        PaletteColor::new(80, 80, 80),
        PaletteColor::new(80, 80, 80),
        PaletteColor::new(80, 80, 80),
        PaletteColor::new(80, 80, 80),
        PaletteColor::new(80, 80, 80),
        PaletteColor::new(80, 80, 80),
        PaletteColor::new(80, 80, 80),
        PaletteColor::new(80, 80, 80),
        PaletteColor::new(80, 80, 80),
        PaletteColor::new(80, 80, 80),
        PaletteColor::new(80, 80, 80),
        PaletteColor::new(80, 80, 80),
        PaletteColor::new(80, 80, 80),
        PaletteColor::new(80, 80, 80),
        PaletteColor::new(80, 80, 80),
        PaletteColor::new(80, 80, 80),
        PaletteColor::new(80, 80, 80),
        PaletteColor::new(80, 80, 80),
        PaletteColor::new(80, 80, 80),
        PaletteColor::new(80, 80, 80),
        PaletteColor::new(80, 80, 80),
        PaletteColor::new(80, 80, 80),
        PaletteColor::new(80, 80, 80),
        PaletteColor::new(80, 80, 80),
        PaletteColor::new(80, 80, 80),
        PaletteColor::new(80, 80, 80),
        PaletteColor::new(80, 80, 80),
        PaletteColor::new(80, 80, 80),
        PaletteColor::new(80, 80, 80),
        PaletteColor::new(80, 80, 80),
        PaletteColor::new(80, 80, 80),
        PaletteColor::new(80, 80, 80),
        PaletteColor::new(80, 80, 80),
        PaletteColor::new(80, 80, 80),
        PaletteColor::new(80, 80, 80),
        PaletteColor::new(80, 80, 80),
        PaletteColor::new(80, 80, 80),
        PaletteColor::new(80, 80, 80),
        PaletteColor::new(80, 80, 80),
        PaletteColor::new(80, 80, 80),
        PaletteColor::new(80, 80, 80),
        PaletteColor::new(80, 80, 80),
        PaletteColor::new(80, 80, 80),
        PaletteColor::new(80, 80, 80),
        PaletteColor::new(80, 80, 80),
        PaletteColor::new(80, 80, 80),
        PaletteColor::new(80, 80, 80),
        PaletteColor::new(80, 80, 80),
        PaletteColor::new(80, 80, 80),
        PaletteColor::new(80, 80, 80),
        PaletteColor::new(80, 80, 80),
        PaletteColor::new(80, 80, 80),
        PaletteColor::new(80, 80, 80),
        PaletteColor::new(80, 80, 80),
        PaletteColor::new(80, 80, 80),
        PaletteColor::new(80, 80, 80),
        PaletteColor::new(80, 80, 80),
        PaletteColor::new(80, 80, 80),
        PaletteColor::new(80, 80, 80),
        PaletteColor::new(80, 80, 80),
        PaletteColor::new(80, 80, 80),
        PaletteColor::new(80, 80, 80),
        PaletteColor::new(80, 80, 80),
        PaletteColor::new(80, 80, 80),
        PaletteColor::new(80, 80, 80),
        PaletteColor::new(80, 80, 80),
        PaletteColor::new(80, 80, 80),
        PaletteColor::new(80, 80, 80),
        PaletteColor::new(80, 80, 80),
        PaletteColor::new(80, 80, 80),
        PaletteColor::new(80, 80, 80),
        PaletteColor::new(80, 80, 80),
        PaletteColor::new(80, 80, 80),
        PaletteColor::new(80, 80, 80),
        PaletteColor::new(80, 80, 80),
        PaletteColor::new(0, 0, 0),
        PaletteColor::new(100, 100, 100),
        PaletteColor::new(96, 96, 96),
        PaletteColor::new(93, 93, 88),
        PaletteColor::new(66, 66, 66),
        PaletteColor::new(75, 75, 75),
        PaletteColor::new(32, 55, 55),
        PaletteColor::new(18, 31, 31),
        PaletteColor::new(80, 0, 0),
        PaletteColor::new(100, 0, 0),
        PaletteColor::new(80, 36, 27),
        PaletteColor::new(100, 39, 28),
        PaletteColor::new(55, 40, 55),
        PaletteColor::new(93, 7, 54),
        PaletteColor::new(80, 57, 62),
        PaletteColor::new(98, 50, 44),
        PaletteColor::new(93, 60, 0),
        PaletteColor::new(100, 65, 0),
        PaletteColor::new(100, 50, 0),
        PaletteColor::new(56, 14, 42),
        PaletteColor::new(80, 80, 0),
        PaletteColor::new(93, 79, 20),
        PaletteColor::new(93, 93, 82),
        PaletteColor::new(93, 91, 67),
        PaletteColor::new(60, 80, 20),
        PaletteColor::new(0, 100, 50),
        PaletteColor::new(0, 80, 0),
        PaletteColor::new(14, 56, 14),
        PaletteColor::new(18, 31, 18),
        PaletteColor::new(0, 93, 93),
        PaletteColor::new(0, 75, 80),
        PaletteColor::new(46, 93, 78),
        PaletteColor::new(0, 0, 80),
        PaletteColor::new(28, 46, 100),
        PaletteColor::new(0, 0, 50),
        PaletteColor::new(69, 88, 90),
        PaletteColor::new(18, 18, 31),
        PaletteColor::new(28, 51, 71),
        PaletteColor::new(20, 0, 40),
        PaletteColor::new(40, 0, 60),
        PaletteColor::new(93, 51, 93),
        PaletteColor::new(87, 0, 87),
        PaletteColor::new(96, 96, 86),
        PaletteColor::new(96, 87, 70),
        PaletteColor::new(86, 58, 44),
        PaletteColor::new(96, 65, 37),
        PaletteColor::new(80, 17, 17),
        PaletteColor::new(62, 62, 37),
        PaletteColor::new(93, 46, 13),
        PaletteColor::new(55, 27, 8),
    ];
    colors
}

} // verus!
