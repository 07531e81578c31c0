//! Vertex data: positions with optional normal and color attributes.

use vstd::prelude::*;

use crate::basic_types::RGBA;
use crate::error::Error;

verus! {

/// A single point in 3D space.  Each coordinate holds the raw bit pattern of
/// the 32-bit value that was read from, or will be written to, the geometry
/// pipeline.
#[derive(Clone, Copy, Debug, PartialEq, Eq, Structural)]
pub struct Point3D {
    pub x: u32,
    pub y: u32,
    pub z: u32,
}

impl Point3D {
    /// Returns a new point from the three coordinate bit patterns.
    pub fn new(x: u32, y: u32, z: u32) -> (r: Self)
        ensures
            r == (Point3D { x, y, z }),
    {
        Self { x, y, z }
    }
}

/// A single normal.
pub type Normal = Point3D;

/// A vertex list.  A vertex is a position in space with additional optional
/// attributes such as a normal or a color.
pub struct Vertices {
    positions: Vec<Point3D>,
    normals: Option<Vec<Normal>>,
    colors: Option<Vec<RGBA>>,
}

impl Vertices {
    /// The stored positions.
    pub closed spec fn spec_positions(&self) -> Seq<Point3D> {
        self.positions@
    }

    /// The stored normal attribute, if any.
    pub closed spec fn spec_normals(&self) -> Option<Seq<Normal>> {
        match self.normals {
            Some(ref ns) => Some(ns@),
            None => None,
        }
    }

    /// The stored color attribute, if any.
    pub closed spec fn spec_colors(&self) -> Option<Seq<RGBA>> {
        match self.colors {
            Some(ref cs) => Some(cs@),
            None => None,
        }
    }

    /// Returns a new empty set of vertices with only the positions attribute.
    pub fn new() -> (r: Self)
        ensures
            r.spec_positions() == Seq::<Point3D>::empty(),
            r.spec_normals() is None,
            r.spec_colors() is None,
    {
        let r = Vertices { positions: Vec::new(), normals: None, colors: None };
        proof {
            assert(r.spec_positions() =~= Seq::<Point3D>::empty());
        }
        r
    }

    /// Creates a new vertices object initialized with the given positions.
    pub fn from_positions(positions: Vec<Point3D>) -> (r: Self)
        ensures
            r.spec_positions() == positions@,
            r.spec_normals() is None,
            r.spec_colors() is None,
    {
        Vertices { positions, normals: None, colors: None }
    }

    /// Returns the number of vertices.
    pub fn len(&self) -> (r: usize)
        ensures
            r == self.spec_positions().len(),
    {
        self.positions.len()
    }

    /// Sets the normal attribute.  If the number of normals does not match
    /// the number of vertices, an error is returned and nothing changes.
    pub fn set_normals(&mut self, normals: Vec<Normal>) -> (r: Result<(), Error>)
        ensures
            r is Ok <==> normals@.len() == old(self).spec_positions().len(),
            final(self).spec_positions() == old(self).spec_positions(),
            final(self).spec_colors() == old(self).spec_colors(),
            match r {
                Ok(()) => final(self).spec_normals() == Some(normals@),
                Err(e) => final(self).spec_normals() == old(self).spec_normals()
                    && e.is_invalid_argument(),
            },
    {
        if self.positions.len() != normals.len() {
            Err(
                Error::InvalidArgument(
                    "normal attribute length does not match vertex count".to_owned(),
                ),
            )
        } else {
            self.normals = Some(normals);
            Ok(())
        }
    }

    /// Sets the color attribute.  If the number of colors does not match the
    /// number of vertices, an error is returned and nothing changes.
    pub fn set_colors(&mut self, colors: Vec<RGBA>) -> (r: Result<(), Error>)
        ensures
            r is Ok <==> colors@.len() == old(self).spec_positions().len(),
            final(self).spec_positions() == old(self).spec_positions(),
            final(self).spec_normals() == old(self).spec_normals(),
            match r {
                Ok(()) => final(self).spec_colors() == Some(colors@),
                Err(e) => final(self).spec_colors() == old(self).spec_colors()
                    && e.is_invalid_argument(),
            },
    {
        if self.positions.len() != colors.len() {
            Err(
                Error::InvalidArgument(
                    "color attribute length does not match vertex count".to_owned(),
                ),
            )
        } else {
            self.colors = Some(colors);
            Ok(())
        }
    }

    /// Returns a reference onto the positions attribute.
    pub fn get_positions(&self) -> (r: &Vec<Point3D>)
        ensures
            r@ == self.spec_positions(),
    {
        &self.positions
    }

    /// Returns a reference onto the normals attribute.
    pub fn get_normals(&self) -> (r: Option<&Vec<Normal>>)
        ensures
            match r {
                Some(ns) => self.spec_normals() == Some(ns@),
                None => self.spec_normals() is None,
            },
    {
        self.normals.as_ref()
    }

    /// Returns a reference onto the colors attribute.
    pub fn get_colors(&self) -> (r: Option<&Vec<RGBA>>)
        ensures
            match r {
                Some(cs) => self.spec_colors() == Some(cs@),
                None => self.spec_colors() is None,
            },
    {
        self.colors.as_ref()
    }
}

} // verus!
