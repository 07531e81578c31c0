//! Shapes: shared bundles of mesh parts with material context.

use std::rc::Rc;

use vstd::prelude::*;

use crate::basic_types::ID;
use crate::structure::mesh::Mesh;

verus! {

/// A color with three 8-bit channels, as found in a palette.
#[derive(Clone, Copy, Debug, PartialEq, Eq, Structural)]
pub struct PaletteColor {
    pub red: u8,
    pub green: u8,
    pub blue: u8,
}

impl PaletteColor {
    /// Returns a new palette color from the three channels.
    pub fn new(red: u8, green: u8, blue: u8) -> (r: Self)
        ensures
            r == (PaletteColor { red, green, blue }),
    {
        Self { red, green, blue }
    }
}

/// The data of a Phong material.
///
/// Colors are 8-bit channels as resolved from a palette; the scalar fields
/// are fixed-point values in thousandths, so the verified library never
/// handles floating-point numbers.  Exporters scale the channels and
/// thousandths into the range expected by their output format.
#[derive(Clone, Copy, Debug, PartialEq, Eq, Structural)]
pub struct PhongMaterialData {
    /// The diffuse color channels.
    pub diffuse_color: PaletteColor,
    /// The specular color channels.
    pub specular_color: PaletteColor,
    /// The emissive color channels.
    pub emissive_color: PaletteColor,
    /// How much ambient light the surface reflects, in thousandths.
    pub ambient_intensity_thousandths: u16,
    /// The sharpness of specular highlights, in thousandths.
    pub shininess_thousandths: u16,
    /// How clear the object is, in thousandths; 1000 is fully transparent.
    pub transparency_thousandths: u16,
}

impl PhongMaterialData {
    /// The default Phong data: a light grey diffuse surface.
    pub fn new_default() -> (r: Self)
        ensures
            r == Self::spec_default(),
    {
        PhongMaterialData {
            diffuse_color: PaletteColor { red: 204, green: 204, blue: 204 },
            specular_color: PaletteColor { red: 0, green: 0, blue: 0 },
            emissive_color: PaletteColor { red: 0, green: 0, blue: 0 },
            ambient_intensity_thousandths: 200,
            shininess_thousandths: 200,
            transparency_thousandths: 0,
        }
    }

    /// The default Phong data, as a specification value.
    pub open spec fn spec_default() -> Self {
        PhongMaterialData {
            diffuse_color: PaletteColor { red: 204u8, green: 204u8, blue: 204u8 },
            specular_color: PaletteColor { red: 0u8, green: 0u8, blue: 0u8 },
            emissive_color: PaletteColor { red: 0u8, green: 0u8, blue: 0u8 },
            ambient_intensity_thousandths: 200u16,
            shininess_thousandths: 200u16,
            transparency_thousandths: 0u16,
        }
    }
}

/// The material of a shape.
#[derive(Clone, Copy, Debug)]
pub enum Material {
    /// No material is assigned to the shape.
    Unassigned,
    /// A Phong material is assigned to the shape.
    PhongMaterial(PhongMaterialData),
}

/// A part of a shape: a mesh with a material reference.  Meshes and materials
/// are shared by reference across parts and nodes.
pub struct ShapePart {
    mesh: Rc<Mesh>,
    material: Rc<Material>,
}

impl ShapePart {
    /// The stored mesh.
    pub closed spec fn spec_mesh(&self) -> Mesh {
        *self.mesh
    }

    /// The stored material.
    pub closed spec fn spec_material(&self) -> Material {
        *self.material
    }

    /// Returns a new shape part from the given mesh and material.
    pub fn new(mesh: Rc<Mesh>, material: Rc<Material>) -> (r: Self)
        ensures
            r.spec_mesh() == *mesh,
            r.spec_material() == *material,
    {
        Self { mesh, material }
    }

    /// Returns the internal mesh reference.
    pub fn get_mesh(&self) -> (r: Rc<Mesh>)
        ensures
            *r == self.spec_mesh(),
    {
        crate::basic_types::rc_clone(&self.mesh)
    }

    /// Returns the internal material reference.
    pub fn get_material(&self) -> (r: Rc<Material>)
        ensures
            *r == self.spec_material(),
    {
        crate::basic_types::rc_clone(&self.material)
    }
}

/// A shape is the geometric and visual description of an object: an id-tagged
/// bundle of parts shared by reference across nodes.
pub struct Shape {
    /// The unique id of the shape.
    id: ID,
    /// The parts of the shape.
    parts: Vec<ShapePart>,
}

impl Shape {
    /// The id of the shape.
    pub closed spec fn spec_id(&self) -> ID {
        self.id
    }

    /// The parts of the shape.
    pub closed spec fn spec_parts(&self) -> Seq<ShapePart> {
        self.parts@
    }

    /// Returns a new empty shape carrying the given id.
    ///
    /// Ids are assigned by the caller, usually from an `IDCounter` owned by
    /// whoever builds the scene.
    pub fn new(id: ID) -> (r: Self)
        ensures
            r.spec_id() == id,
            r.spec_parts() == Seq::<ShapePart>::empty(),
    {
        let r = Self { id, parts: Vec::new() };
        proof {
            assert(r.spec_parts() =~= Seq::<ShapePart>::empty());
        }
        r
    }

    /// Returns the id of the shape.
    pub fn get_id(&self) -> (r: ID)
        ensures
            r == self.spec_id(),
    {
        self.id
    }

    /// Adds a part to the shape.
    pub fn add_part(&mut self, part: ShapePart)
        ensures
            final(self).spec_id() == old(self).spec_id(),
            final(self).spec_parts() == old(self).spec_parts().push(part),
    {
        self.parts.push(part);
    }

    /// Returns a reference onto the parts of the shape.
    pub fn get_parts(&self) -> (r: &Vec<ShapePart>)
        ensures
            r@ == self.spec_parts(),
    {
        &self.parts
    }
}

} // verus!
