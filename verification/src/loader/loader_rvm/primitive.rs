//! The decoder for fixed-layout primitive records.
//!
//! Each solid kind is a fixed-arity read of big-endian 32-bit words; the
//! words carry the bit patterns of the geometric parameters and are kept
//! verbatim.  Polygons decode a variable nested structure of counted
//! polygons, contours and vertices, where a zero count is a format error.

use vstd::prelude::*;

use crate::error::Error;
use crate::loader::loader_rvm::reader::ByteReader;
use crate::loader::loader_rvm::reader::be_word;
use crate::loader::loader_rvm::reader::words_match;

verus! {

/// The data for a single primitive.
#[derive(Debug)]
pub enum Primitive {
    Box(BoxData),
    Pyramid(PyramidData),
    RectangularTorus(RectangularTorusData),
    CircularTorus(CircularTorusData),
    EllipticalDish(EllipticalDishData),
    SphericalDish(SphericalDishData),
    Snout(SnoutData),
    Cylinder(CylinderData),
    Sphere(SphereData),
    Line(LineData),
    Polygons(PolygonsData),
}

/// The number of parameter words a primitive record of the given type code
/// holds, for the fixed-arity kinds.
pub open spec fn fixed_record_words(primitive_type: u32) -> nat {
    match primitive_type {
        1u32 => 7,  // pyramid
        2u32 => 3,  // box
        3u32 => 4,  // rectangular torus
        4u32 => 3,  // circular torus
        5u32 => 2,  // elliptical dish
        6u32 => 2,  // spherical dish
        7u32 => 9,  // snout
        8u32 => 2,  // cylinder
        9u32 => 1,  // sphere
        10u32 => 2,  // line
        _ => 0,
    }
}

/// Whether the primitive `p`, selected by type code `code`, is decoded from
/// the record bytes from `j` to `end`.
pub open spec fn primitive_record_decoded(
    data: Seq<u8>,
    j: int,
    code: u32,
    p: Primitive,
    end: int,
) -> bool {
    match p {
        Primitive::Pyramid(d) => code == 1 && d.inner@.len() == 7 && words_match(d.inner@, data, j)
            && end == j + 28,
        Primitive::Box(d) => code == 2 && d.inner@.len() == 3 && words_match(d.inner@, data, j)
            && end == j + 12,
        Primitive::RectangularTorus(d) => code == 3 && d.inner@.len() == 4 && words_match(
            d.inner@,
            data,
            j,
        ) && end == j + 16,
        Primitive::CircularTorus(d) => code == 4 && d.inner@.len() == 3 && words_match(
            d.inner@,
            data,
            j,
        ) && end == j + 12,
        Primitive::EllipticalDish(d) => code == 5 && d.inner@.len() == 2 && words_match(
            d.inner@,
            data,
            j,
        ) && end == j + 8,
        Primitive::SphericalDish(d) => code == 6 && d.inner@.len() == 2 && words_match(
            d.inner@,
            data,
            j,
        ) && end == j + 8,
        Primitive::Snout(d) => code == 7 && d.inner@.len() == 9 && words_match(d.inner@, data, j)
            && end == j + 36,
        Primitive::Cylinder(d) => code == 8 && d.inner@.len() == 2 && words_match(d.inner@, data, j)
            && end == j + 8,
        Primitive::Sphere(d) => code == 9 && d.diameter == be_word(data, j) && end == j + 4,
        Primitive::Line(d) => code == 10 && d.inner@.len() == 2 && words_match(d.inner@, data, j)
            && end == j + 8,
        Primitive::Polygons(d) => code == 11 && j + 4 <= data.len() && d.inner@.len() == be_word(
            data,
            j,
        ) && polygons_encoded(data, j + 4, end, d.inner@),
    }
}

impl Primitive {
    /// Read the primitive data for the given type code from the reader.
    ///
    /// Type codes 1 through 11 select the solid kind; any other code is a
    /// format error and consumes nothing.
    pub fn from_reader(reader: &mut ByteReader, primitive_type: u32) -> (res: Result<Self, Error>)
        ensures
            final(reader).spec_data() == old(reader).spec_data(),
            final(reader).spec_pos() >= old(reader).spec_pos(),
            ({
                let data = old(reader).spec_data();
                let j = old(reader).spec_pos();
                match res {
                    Ok(p) => primitive_record_decoded(
                        data,
                        j,
                        primitive_type,
                        p,
                        final(reader).spec_pos(),
                    ),
                    Err(e) => if 1 <= primitive_type <= 10 {
                        e.is_io() && j + 4 * fixed_record_words(primitive_type) > data.len()
                            && final(reader).spec_pos() == j
                    } else if primitive_type == 11 {
                        &&& !(spec_parse_polygons_record(data, j) is Done)
                        &&& (e.is_io() <==> spec_parse_polygons_record(data, j) is Truncated)
                        &&& (e.is_invalid_format() <==> spec_parse_polygons_record(data, j)
                            is Malformed)
                    } else {
                        e.is_invalid_format() && final(reader).spec_pos() == j
                    },
                }
            }),
            res is Ok && primitive_type == 11 ==> spec_parse_polygons_record(
                old(reader).spec_data(),
                old(reader).spec_pos(),
            ) == ParseOutcome::Done(final(reader).spec_pos()),
            res is Err && 1 <= primitive_type <= 10 ==> old(reader).spec_pos() + 4
                * fixed_record_words(primitive_type) > old(reader).spec_data().len(),
            res is Ok && 1 <= primitive_type <= 10 ==> old(reader).spec_pos() + 4
                * fixed_record_words(primitive_type) <= old(reader).spec_data().len(),
    {
        match primitive_type {
            1 => match PyramidData::from_reader(reader) {
                Ok(d) => Ok(Primitive::Pyramid(d)),
                Err(e) => Err(e),
            },
            2 => match BoxData::from_reader(reader) {
                Ok(d) => Ok(Primitive::Box(d)),
                Err(e) => Err(e),
            },
            3 => match RectangularTorusData::from_reader(reader) {
                Ok(d) => Ok(Primitive::RectangularTorus(d)),
                Err(e) => Err(e),
            },
            4 => match CircularTorusData::from_reader(reader) {
                Ok(d) => Ok(Primitive::CircularTorus(d)),
                Err(e) => Err(e),
            },
            5 => match EllipticalDishData::from_reader(reader) {
                Ok(d) => Ok(Primitive::EllipticalDish(d)),
                Err(e) => Err(e),
            },
            6 => match SphericalDishData::from_reader(reader) {
                Ok(d) => Ok(Primitive::SphericalDish(d)),
                Err(e) => Err(e),
            },
            7 => match SnoutData::from_reader(reader) {
                Ok(d) => Ok(Primitive::Snout(d)),
                Err(e) => Err(e),
            },
            8 => match CylinderData::from_reader(reader) {
                Ok(d) => Ok(Primitive::Cylinder(d)),
                Err(e) => Err(e),
            },
            9 => match SphereData::from_reader(reader) {
                Ok(d) => Ok(Primitive::Sphere(d)),
                Err(e) => Err(e),
            },
            10 => match LineData::from_reader(reader) {
                Ok(d) => Ok(Primitive::Line(d)),
                Err(e) => Err(e),
            },
            11 => match PolygonsData::from_reader(reader) {
                Ok(d) => Ok(Primitive::Polygons(d)),
                Err(e) => Err(e),
            },
            _ => Err(Error::InvalidFormat("unknown primitive type".to_owned())),
        }
    }

    /// Returns the name of the primitive type.
    pub fn name(&self) -> (r: &str) {
        match self {
            Primitive::Box(_) => "Box",
            Primitive::Pyramid(_) => "Pyramid",
            Primitive::RectangularTorus(_) => "RectangularTorus",
            Primitive::CircularTorus(_) => "CircularTorus",
            Primitive::EllipticalDish(_) => "EllipticalDish",
            Primitive::SphericalDish(_) => "SphericalDish",
            Primitive::Snout(_) => "Snout",
            Primitive::Cylinder(_) => "Cylinder",
            Primitive::Sphere(_) => "Sphere",
            Primitive::Line(_) => "Line",
            Primitive::Polygons(_) => "Polygons",
        }
    }
}

/// The trait for all primitive data types.
pub trait PrimitiveData: Sized {
    /// Read the primitive data from the reader.
    fn from_reader(reader: &mut ByteReader) -> (res: Result<Self, Error>);
}

/// A box whose center is at the origin.  The words are the bit patterns of
/// its sizes along the x, y and z axes.
#[derive(Debug)]
pub struct BoxData {
    pub inner: [u32; 3],
}

impl BoxData {
    /// The bit pattern of the size of the box along the x axis.
    pub fn size_x(&self) -> (r: u32)
        ensures
            r == self.inner@[0],
    {
        self.inner[0]
    }

    /// The bit pattern of the size of the box along the y axis.
    pub fn size_y(&self) -> (r: u32)
        ensures
            r == self.inner@[1],
    {
        self.inner[1]
    }

    /// The bit pattern of the size of the box along the z axis.
    pub fn size_z(&self) -> (r: u32)
        ensures
            r == self.inner@[2],
    {
        self.inner[2]
    }
}

impl PrimitiveData for BoxData {
    fn from_reader(reader: &mut ByteReader) -> (res: Result<Self, Error>)
        ensures
            final(reader).spec_data() == old(reader).spec_data(),
            res is Ok <==> old(reader).spec_pos() + 12 <= old(reader).spec_data().len(),
            match res {
                Ok(d) => d.inner@.len() == 3 && words_match(
                    d.inner@,
                    old(reader).spec_data(),
                    old(reader).spec_pos(),
                ) && final(reader).spec_pos() == old(reader).spec_pos() + 12,
                Err(e) => e.is_io() && final(reader).spec_pos() == old(reader).spec_pos(),
            },
    {
        let ws = match reader.read_words(3) {
            Ok(ws) => ws,
            Err(e) => {
                return Err(e);
            },
        };
        let d = BoxData { inner: [ws[0], ws[1], ws[2]] };
        proof {
            assert(d.inner@ =~= ws@);
        }
        Ok(d)
    }
}

/// A pyramid frustum.  The words are the bit patterns of, in order: the
/// bottom rectangle sizes, the top rectangle sizes, the top offsets, and the
/// height.
#[derive(Debug)]
pub struct PyramidData {
    pub inner: [u32; 7],
}

impl PrimitiveData for PyramidData {
    fn from_reader(reader: &mut ByteReader) -> (res: Result<Self, Error>)
        ensures
            final(reader).spec_data() == old(reader).spec_data(),
            res is Ok <==> old(reader).spec_pos() + 28 <= old(reader).spec_data().len(),
            match res {
                Ok(d) => d.inner@.len() == 7 && words_match(
                    d.inner@,
                    old(reader).spec_data(),
                    old(reader).spec_pos(),
                ) && final(reader).spec_pos() == old(reader).spec_pos() + 28,
                Err(e) => e.is_io() && final(reader).spec_pos() == old(reader).spec_pos(),
            },
    {
        let ws = match reader.read_words(7) {
            Ok(ws) => ws,
            Err(e) => {
                return Err(e);
            },
        };
        let d = PyramidData { inner: [ws[0], ws[1], ws[2], ws[3], ws[4], ws[5], ws[6]] };
        proof {
            assert(d.inner@ =~= ws@);
        }
        Ok(d)
    }
}

/// A torus segment with rectangular cross-section.  The words are the bit
/// patterns of the inside radius, outside radius, height and angle.
#[derive(Debug)]
pub struct RectangularTorusData {
    pub inner: [u32; 4],
}

impl PrimitiveData for RectangularTorusData {
    fn from_reader(reader: &mut ByteReader) -> (res: Result<Self, Error>)
        ensures
            final(reader).spec_data() == old(reader).spec_data(),
            res is Ok <==> old(reader).spec_pos() + 16 <= old(reader).spec_data().len(),
            match res {
                Ok(d) => d.inner@.len() == 4 && words_match(
                    d.inner@,
                    old(reader).spec_data(),
                    old(reader).spec_pos(),
                ) && final(reader).spec_pos() == old(reader).spec_pos() + 16,
                Err(e) => e.is_io() && final(reader).spec_pos() == old(reader).spec_pos(),
            },
    {
        let ws = match reader.read_words(4) {
            Ok(ws) => ws,
            Err(e) => {
                return Err(e);
            },
        };
        let d = RectangularTorusData { inner: [ws[0], ws[1], ws[2], ws[3]] };
        proof {
            assert(d.inner@ =~= ws@);
        }
        Ok(d)
    }
}

/// A torus segment with circular cross-section.  The words are the bit
/// patterns of the offset, radius and angle.
#[derive(Debug)]
pub struct CircularTorusData {
    pub inner: [u32; 3],
}

impl PrimitiveData for CircularTorusData {
    fn from_reader(reader: &mut ByteReader) -> (res: Result<Self, Error>)
        ensures
            final(reader).spec_data() == old(reader).spec_data(),
            res is Ok <==> old(reader).spec_pos() + 12 <= old(reader).spec_data().len(),
            match res {
                Ok(d) => d.inner@.len() == 3 && words_match(
                    d.inner@,
                    old(reader).spec_data(),
                    old(reader).spec_pos(),
                ) && final(reader).spec_pos() == old(reader).spec_pos() + 12,
                Err(e) => e.is_io() && final(reader).spec_pos() == old(reader).spec_pos(),
            },
    {
        let ws = match reader.read_words(3) {
            Ok(ws) => ws,
            Err(e) => {
                return Err(e);
            },
        };
        let d = CircularTorusData { inner: [ws[0], ws[1], ws[2]] };
        proof {
            assert(d.inner@ =~= ws@);
        }
        Ok(d)
    }
}

/// An elliptical dish.  The words are the bit patterns of the diameter and
/// radius.
#[derive(Debug)]
pub struct EllipticalDishData {
    pub inner: [u32; 2],
}

impl PrimitiveData for EllipticalDishData {
    fn from_reader(reader: &mut ByteReader) -> (res: Result<Self, Error>)
        ensures
            final(reader).spec_data() == old(reader).spec_data(),
            res is Ok <==> old(reader).spec_pos() + 8 <= old(reader).spec_data().len(),
            match res {
                Ok(d) => d.inner@.len() == 2 && words_match(
                    d.inner@,
                    old(reader).spec_data(),
                    old(reader).spec_pos(),
                ) && final(reader).spec_pos() == old(reader).spec_pos() + 8,
                Err(e) => e.is_io() && final(reader).spec_pos() == old(reader).spec_pos(),
            },
    {
        let ws = match reader.read_words(2) {
            Ok(ws) => ws,
            Err(e) => {
                return Err(e);
            },
        };
        let d = EllipticalDishData { inner: [ws[0], ws[1]] };
        proof {
            assert(d.inner@ =~= ws@);
        }
        Ok(d)
    }
}

/// A spherical dish.  The words are the bit patterns of the diameter and
/// height.
#[derive(Debug)]
pub struct SphericalDishData {
    pub inner: [u32; 2],
}

impl PrimitiveData for SphericalDishData {
    fn from_reader(reader: &mut ByteReader) -> (res: Result<Self, Error>)
        ensures
            final(reader).spec_data() == old(reader).spec_data(),
            res is Ok <==> old(reader).spec_pos() + 8 <= old(reader).spec_data().len(),
            match res {
                Ok(d) => d.inner@.len() == 2 && words_match(
                    d.inner@,
                    old(reader).spec_data(),
                    old(reader).spec_pos(),
                ) && final(reader).spec_pos() == old(reader).spec_pos() + 8,
                Err(e) => e.is_io() && final(reader).spec_pos() == old(reader).spec_pos(),
            },
    {
        let ws = match reader.read_words(2) {
            Ok(ws) => ws,
            Err(e) => {
                return Err(e);
            },
        };
        let d = SphericalDishData { inner: [ws[0], ws[1]] };
        proof {
            assert(d.inner@ =~= ws@);
        }
        Ok(d)
    }
}

/// A snout: a cylinder or cone with offset and sheared end planes.  The
/// words are the bit patterns of the bottom diameter, top diameter, height,
/// offsets and shear angles.
#[derive(Debug)]
pub struct SnoutData {
    pub inner: [u32; 9],
}

impl PrimitiveData for SnoutData {
    fn from_reader(reader: &mut ByteReader) -> (res: Result<Self, Error>)
        ensures
            final(reader).spec_data() == old(reader).spec_data(),
            res is Ok <==> old(reader).spec_pos() + 36 <= old(reader).spec_data().len(),
            match res {
                Ok(d) => d.inner@.len() == 9 && words_match(
                    d.inner@,
                    old(reader).spec_data(),
                    old(reader).spec_pos(),
                ) && final(reader).spec_pos() == old(reader).spec_pos() + 36,
                Err(e) => e.is_io() && final(reader).spec_pos() == old(reader).spec_pos(),
            },
    {
        let ws = match reader.read_words(9) {
            Ok(ws) => ws,
            Err(e) => {
                return Err(e);
            },
        };
        let d = SnoutData {
            inner: [ws[0], ws[1], ws[2], ws[3], ws[4], ws[5], ws[6], ws[7], ws[8]],
        };
        proof {
            assert(d.inner@ =~= ws@);
        }
        Ok(d)
    }
}

/// A cylinder.  The words are the bit patterns of the radius and height in
/// millimeters.
#[derive(Debug)]
pub struct CylinderData {
    pub inner: [u32; 2],
}

impl CylinderData {
    /// The bit pattern of the radius of the cylinder in millimeters.
    pub fn radius(&self) -> (r: u32)
        ensures
            r == self.inner@[0],
    {
        self.inner[0]
    }

    /// The bit pattern of the height of the cylinder in millimeters.
    pub fn height(&self) -> (r: u32)
        ensures
            r == self.inner@[1],
    {
        self.inner[1]
    }
}

impl PrimitiveData for CylinderData {
    fn from_reader(reader: &mut ByteReader) -> (res: Result<Self, Error>)
        ensures
            final(reader).spec_data() == old(reader).spec_data(),
            res is Ok <==> old(reader).spec_pos() + 8 <= old(reader).spec_data().len(),
            match res {
                Ok(d) => d.inner@.len() == 2 && words_match(
                    d.inner@,
                    old(reader).spec_data(),
                    old(reader).spec_pos(),
                ) && final(reader).spec_pos() == old(reader).spec_pos() + 8,
                Err(e) => e.is_io() && final(reader).spec_pos() == old(reader).spec_pos(),
            },
    {
        let ws = match reader.read_words(2) {
            Ok(ws) => ws,
            Err(e) => {
                return Err(e);
            },
        };
        let d = CylinderData { inner: [ws[0], ws[1]] };
        proof {
            assert(d.inner@ =~= ws@);
        }
        Ok(d)
    }
}

/// A sphere.  The word is the bit pattern of the diameter in millimeters.
#[derive(Debug)]
pub struct SphereData {
    pub diameter: u32,
}

impl SphereData {
    /// The bit pattern of the diameter of the sphere in millimeters.
    pub fn diameter(&self) -> (r: u32)
        ensures
            r == self.diameter,
    {
        self.diameter
    }
}

impl PrimitiveData for SphereData {
    fn from_reader(reader: &mut ByteReader) -> (res: Result<Self, Error>)
        ensures
            final(reader).spec_data() == old(reader).spec_data(),
            res is Ok <==> old(reader).spec_pos() + 4 <= old(reader).spec_data().len(),
            match res {
                Ok(d) => d.diameter == be_word(old(reader).spec_data(), old(reader).spec_pos())
                    && final(reader).spec_pos() == old(reader).spec_pos() + 4,
                Err(e) => e.is_io() && final(reader).spec_pos() == old(reader).spec_pos(),
            },
    {
        let diameter = match reader.read_u32() {
            Ok(w) => w,
            Err(e) => {
                return Err(e);
            },
        };
        Ok(SphereData { diameter })
    }
}

/// A line along the x axis.  The words are the bit patterns of the start and
/// end values.
#[derive(Debug)]
pub struct LineData {
    pub inner: [u32; 2],
}

impl PrimitiveData for LineData {
    fn from_reader(reader: &mut ByteReader) -> (res: Result<Self, Error>)
        ensures
            final(reader).spec_data() == old(reader).spec_data(),
            res is Ok <==> old(reader).spec_pos() + 8 <= old(reader).spec_data().len(),
            match res {
                Ok(d) => d.inner@.len() == 2 && words_match(
                    d.inner@,
                    old(reader).spec_data(),
                    old(reader).spec_pos(),
                ) && final(reader).spec_pos() == old(reader).spec_pos() + 8,
                Err(e) => e.is_io() && final(reader).spec_pos() == old(reader).spec_pos(),
            },
    {
        let ws = match reader.read_words(2) {
            Ok(ws) => ws,
            Err(e) => {
                return Err(e);
            },
        };
        let d = LineData { inner: [ws[0], ws[1]] };
        proof {
            assert(d.inner@ =~= ws@);
        }
        Ok(d)
    }
}

/// A vertex of a polygon contour: the bit patterns of the position followed
/// by the normal.
#[derive(Debug, Clone, Copy)]
pub struct Vertex {
    pub inner: [u32; 6],
}

/// A contour defined by a list of vertices.
#[derive(Debug)]
pub struct Contour {
    pub inner: Vec<Vertex>,
}

/// A facet defined by a list of contours, where the first contour is the
/// outer contour.
#[derive(Debug)]
pub struct Polygon {
    pub contours: Vec<Contour>,
}

/// A list of facets.
#[derive(Debug)]
pub struct PolygonsData {
    pub inner: Vec<Polygon>,
}

/// Whether the vertex's six words are encoded at byte `pos`.
pub open spec fn vertex_encoded(data: Seq<u8>, pos: int, v: Vertex) -> bool {
    v.inner@.len() == 6 && words_match(v.inner@, data, pos)
}

/// Whether the contour, with its leading vertex count, is encoded at the
/// bytes from `pos` to `end`.
pub open spec fn contour_encoded(data: Seq<u8>, pos: int, end: int, c: Contour) -> bool {
    &&& pos + 4 <= data.len()
    &&& c.inner@.len() == be_word(data, pos)
    &&& c.inner@.len() > 0
    &&& end == pos + 4 + 24 * c.inner@.len()
    &&& end <= data.len()
    &&& forall|i: int|
        0 <= i < c.inner@.len() ==> vertex_encoded(data, pos + 4 + 24 * i, #[trigger] c.inner@[i])
}

/// Whether the contours are encoded one after another at the bytes from
/// `pos` to `end`.
pub open spec fn contours_encoded(data: Seq<u8>, pos: int, end: int, cs: Seq<Contour>) -> bool
    decreases cs.len(),
{
    if cs.len() == 0 {
        end == pos
    } else {
        {
            let mid = pos + 4 + 24 * cs[0].inner@.len();
            contour_encoded(data, pos, mid, cs[0]) && contours_encoded(
                data,
                mid,
                end,
                cs.drop_first(),
            )
        }
    }
}

/// Whether the polygon, with its leading contour count, is encoded at the
/// bytes from `pos` to `end`.
pub open spec fn polygon_encoded(data: Seq<u8>, pos: int, end: int, p: Polygon) -> bool {
    &&& pos + 4 <= data.len()
    &&& p.contours@.len() == be_word(data, pos)
    &&& p.contours@.len() > 0
    &&& contours_encoded(data, pos + 4, end, p.contours@)
}

/// Whether the polygons are encoded one after another at the bytes from
/// `pos` to `end`.
pub open spec fn polygons_encoded(data: Seq<u8>, pos: int, end: int, ps: Seq<Polygon>) -> bool
    decreases ps.len(),
{
    if ps.len() == 0 {
        end == pos
    } else {
        exists|mid: int|
            #[trigger] polygon_encoded(data, pos, mid, ps[0]) && polygons_encoded(
                data,
                mid,
                end,
                ps.drop_first(),
            )
    }
}

/// Appending one more encoded contour extends the encoded range.
proof fn lemma_contours_encoded_push(data: Seq<u8>, pos: int, mid: int, end: int, cs: Seq<Contour>, c: Contour)
    requires
        contours_encoded(data, pos, mid, cs),
        contour_encoded(data, mid, end, c),
    ensures
        contours_encoded(data, pos, end, cs.push(c)),
    decreases cs.len(),
{
    if cs.len() == 0 {
        assert(mid == pos);
        assert(cs.push(c)[0] == c);
        assert(cs.push(c).drop_first() =~= Seq::<Contour>::empty());
        assert(end == pos + 4 + 24 * c.inner@.len());
        assert(contour_encoded(data, pos, pos + 4 + 24 * c.inner@.len(), c));
        assert(contours_encoded(data, end, end, cs.push(c).drop_first()));
    } else {
        let m0 = pos + 4 + 24 * cs[0].inner@.len();
        lemma_contours_encoded_push(data, m0, mid, end, cs.drop_first(), c);
        assert(cs.push(c)[0] == cs[0]);
        assert(cs.push(c).drop_first() =~= cs.drop_first().push(c));
        assert(contour_encoded(data, pos, m0, cs.push(c)[0]) && contours_encoded(
            data,
            m0,
            end,
            cs.push(c).drop_first(),
        ));
    }
}

/// Appending one more encoded polygon extends the encoded range.
proof fn lemma_polygons_encoded_push(data: Seq<u8>, pos: int, mid: int, end: int, ps: Seq<Polygon>, p: Polygon)
    requires
        polygons_encoded(data, pos, mid, ps),
        polygon_encoded(data, mid, end, p),
    ensures
        polygons_encoded(data, pos, end, ps.push(p)),
    decreases ps.len(),
{
    if ps.len() == 0 {
        assert(ps.push(p)[0] == p);
        assert(ps.push(p).drop_first() =~= Seq::<Polygon>::empty());
        assert(polygon_encoded(data, pos, end, p) && polygons_encoded(
            data,
            end,
            end,
            ps.push(p).drop_first(),
        ));
    } else {
        let m0 = choose|m0: int|
            #[trigger] polygon_encoded(data, pos, m0, ps[0]) && polygons_encoded(
                data,
                m0,
                mid,
                ps.drop_first(),
            );
        lemma_polygons_encoded_push(data, m0, mid, end, ps.drop_first(), p);
        assert(ps.push(p)[0] == ps[0]);
        assert(ps.push(p).drop_first() =~= ps.drop_first().push(p));
        assert(polygon_encoded(data, pos, m0, ps.push(p)[0]) && polygons_encoded(
            data,
            m0,
            end,
            ps.push(p).drop_first(),
        ));
    }
}

/// How parsing a piece of the wire format turns out: it ends at a position,
/// the stream is too short for it, or its bytes break a format rule (a zero
/// count, an unknown type code).
pub enum ParseOutcome {
    Done(int),
    Truncated,
    Malformed,
}

/// How parsing one counted contour starting at byte `pos` turns out.  A zero
/// vertex count is malformed; missing bytes truncate.
pub open spec fn spec_parse_contour(data: Seq<u8>, pos: int) -> ParseOutcome {
    if pos + 4 > data.len() {
        ParseOutcome::Truncated
    } else {
        {
            let count = be_word(data, pos);
            if count == 0 {
                ParseOutcome::Malformed
            } else if pos + 4 + 24 * count > data.len() {
                ParseOutcome::Truncated
            } else {
                ParseOutcome::Done(pos + 4 + 24 * count)
            }
        }
    }
}

/// How parsing `n` contours starting at byte `pos` turns out.
pub open spec fn spec_parse_contours(data: Seq<u8>, pos: int, n: nat) -> ParseOutcome
    decreases n,
{
    if n == 0 {
        ParseOutcome::Done(pos)
    } else {
        match spec_parse_contour(data, pos) {
            ParseOutcome::Done(mid) => spec_parse_contours(data, mid, (n - 1) as nat),
            o => o,
        }
    }
}

/// How parsing one counted polygon starting at byte `pos` turns out.  A zero
/// contour count is malformed.
pub open spec fn spec_parse_polygon(data: Seq<u8>, pos: int) -> ParseOutcome {
    if pos + 4 > data.len() {
        ParseOutcome::Truncated
    } else {
        {
            let count = be_word(data, pos);
            if count == 0 {
                ParseOutcome::Malformed
            } else {
                spec_parse_contours(data, pos + 4, count as nat)
            }
        }
    }
}

/// How parsing `n` polygons starting at byte `pos` turns out.
pub open spec fn spec_parse_polygons(data: Seq<u8>, pos: int, n: nat) -> ParseOutcome
    decreases n,
{
    if n == 0 {
        ParseOutcome::Done(pos)
    } else {
        match spec_parse_polygon(data, pos) {
            ParseOutcome::Done(mid) => spec_parse_polygons(data, mid, (n - 1) as nat),
            o => o,
        }
    }
}

/// How parsing a whole polygons record (polygon count, then that many
/// polygons) starting at byte `pos` turns out.
pub open spec fn spec_parse_polygons_record(data: Seq<u8>, pos: int) -> ParseOutcome {
    if pos + 4 > data.len() {
        ParseOutcome::Truncated
    } else {
        spec_parse_polygons(data, pos + 4, be_word(data, pos) as nat)
    }
}

/// Contours that parse to an end position stay within the data and never
/// move backwards.
pub proof fn lemma_contours_done_bounds(data: Seq<u8>, pos: int, n: nat)
    requires
        pos <= data.len(),
        spec_parse_contours(data, pos, n) is Done,
    ensures
        pos <= spec_parse_contours(data, pos, n)->Done_0 <= data.len(),
    decreases n,
{
    if n != 0 {
        match spec_parse_contour(data, pos) {
            ParseOutcome::Done(mid) => {
                lemma_contours_done_bounds(data, mid, (n - 1) as nat);
            },
            _ => {},
        }
    }
}

/// Polygons that parse to an end position stay within the data and never
/// move backwards.
pub proof fn lemma_polygons_done_bounds(data: Seq<u8>, pos: int, n: nat)
    requires
        pos <= data.len(),
        spec_parse_polygons(data, pos, n) is Done,
    ensures
        pos <= spec_parse_polygons(data, pos, n)->Done_0 <= data.len(),
    decreases n,
{
    if n != 0 {
        match spec_parse_polygon(data, pos) {
            ParseOutcome::Done(mid) => {
                lemma_contours_done_bounds(data, pos + 4, be_word(data, pos) as nat);
                lemma_polygons_done_bounds(data, mid, (n - 1) as nat);
            },
            _ => {},
        }
    }
}

/// A polygons record that parses ends within the data, past its count word.
pub proof fn lemma_polygons_record_done_bounds(data: Seq<u8>, pos: int)
    requires
        spec_parse_polygons_record(data, pos) is Done,
    ensures
        pos < spec_parse_polygons_record(data, pos)->Done_0 <= data.len(),
{
    lemma_polygons_done_bounds(data, pos + 4, be_word(data, pos) as nat);
}

impl PrimitiveData for PolygonsData {
    fn from_reader(reader: &mut ByteReader) -> (res: Result<Self, Error>)
        ensures
            final(reader).spec_data() == old(reader).spec_data(),
            final(reader).spec_pos() >= old(reader).spec_pos(),
            res is Ok <==> spec_parse_polygons_record(
                old(reader).spec_data(),
                old(reader).spec_pos(),
            ) is Done,
            match res {
                Ok(d) => {
                    &&& old(reader).spec_pos() + 4 <= old(reader).spec_data().len()
                    &&& d.inner@.len() == be_word(old(reader).spec_data(), old(reader).spec_pos())
                    &&& polygons_encoded(
                        old(reader).spec_data(),
                        old(reader).spec_pos() + 4,
                        final(reader).spec_pos(),
                        d.inner@,
                    )
                    &&& ParseOutcome::Done(final(reader).spec_pos()) == spec_parse_polygons_record(
                        old(reader).spec_data(),
                        old(reader).spec_pos(),
                    )
                },
                Err(e) => {
                    &&& e.is_io() <==> spec_parse_polygons_record(
                        old(reader).spec_data(),
                        old(reader).spec_pos(),
                    ) is Truncated
                    &&& e.is_invalid_format() <==> spec_parse_polygons_record(
                        old(reader).spec_data(),
                        old(reader).spec_pos(),
                    ) is Malformed
                },
            },
    {
        let ghost data = old(reader).spec_data();
        let num_polygons = match reader.read_u32() {
            Ok(w) => w,
            Err(e) => {
                return Err(e);
            },
        };
        let ghost start = reader.spec_pos();
        let mut polygons: Vec<Polygon> = Vec::new();
        let mut i: u32 = 0;
        while i < num_polygons
            invariant
                data == old(reader).spec_data(),
                reader.spec_data() == data,
                old(reader).spec_pos() + 4 <= data.len(),
                num_polygons == be_word(data, old(reader).spec_pos()),
                start == old(reader).spec_pos() + 4,
                reader.spec_pos() >= start,
                0 <= i <= num_polygons,
                polygons@.len() == i,
                polygons_encoded(data, start, reader.spec_pos(), polygons@),
                spec_parse_polygons(data, start, num_polygons as nat) == spec_parse_polygons(
                    data,
                    reader.spec_pos(),
                    (num_polygons - i) as nat,
                ),
            decreases num_polygons - i,
        {
            let ghost pos0 = reader.spec_pos();
            let polygon = match Self::read_polygon(reader) {
                Ok(p) => p,
                Err(e) => {
                    proof {
                        assert(spec_parse_polygons(data, pos0, (num_polygons - i) as nat)
                            == spec_parse_polygon(data, pos0));
                    }
                    return Err(e);
                },
            };
            proof {
                lemma_polygons_encoded_push(
                    data,
                    start,
                    pos0,
                    reader.spec_pos(),
                    polygons@,
                    polygon,
                );
            }
            polygons.push(polygon);
            i = i + 1;
        }
        Ok(PolygonsData { inner: polygons })
    }
}

impl PolygonsData {
    /// Reads one counted polygon: a contour count followed by that many
    /// contours.  A zero count is a format error.
    fn read_polygon(reader: &mut ByteReader) -> (res: Result<Polygon, Error>)
        ensures
            final(reader).spec_data() == old(reader).spec_data(),
            final(reader).spec_pos() >= old(reader).spec_pos(),
            res is Ok <==> spec_parse_polygon(old(reader).spec_data(), old(reader).spec_pos())
                is Done,
            match res {
                Ok(p) => polygon_encoded(
                    old(reader).spec_data(),
                    old(reader).spec_pos(),
                    final(reader).spec_pos(),
                    p,
                ) && ParseOutcome::Done(final(reader).spec_pos()) == spec_parse_polygon(
                    old(reader).spec_data(),
                    old(reader).spec_pos(),
                ),
                Err(e) => {
                    &&& e.is_io() <==> spec_parse_polygon(
                        old(reader).spec_data(),
                        old(reader).spec_pos(),
                    ) is Truncated
                    &&& e.is_invalid_format() <==> spec_parse_polygon(
                        old(reader).spec_data(),
                        old(reader).spec_pos(),
                    ) is Malformed
                },
            },
    {
        let ghost data = old(reader).spec_data();
        let num_contours = match reader.read_u32() {
            Ok(w) => w,
            Err(e) => {
                return Err(e);
            },
        };
        if num_contours == 0 {
            return Err(Error::InvalidFormat("number of contours is zero".to_owned()));
        }
        let ghost start = reader.spec_pos();
        let mut contours: Vec<Contour> = Vec::new();
        let mut i: u32 = 0;
        while i < num_contours
            invariant
                data == old(reader).spec_data(),
                reader.spec_data() == data,
                old(reader).spec_pos() + 4 <= data.len(),
                num_contours == be_word(data, old(reader).spec_pos()),
                num_contours != 0,
                start == old(reader).spec_pos() + 4,
                reader.spec_pos() >= start,
                0 <= i <= num_contours,
                contours@.len() == i,
                contours_encoded(data, start, reader.spec_pos(), contours@),
                spec_parse_contours(data, start, num_contours as nat) == spec_parse_contours(
                    data,
                    reader.spec_pos(),
                    (num_contours - i) as nat,
                ),
            decreases num_contours - i,
        {
            let ghost pos0 = reader.spec_pos();
            let contour = match Self::read_contour(reader) {
                Ok(c) => c,
                Err(e) => {
                    proof {
                        assert(spec_parse_contours(data, pos0, (num_contours - i) as nat)
                            == spec_parse_contour(data, pos0));
                    }
                    return Err(e);
                },
            };
            proof {
                lemma_contours_encoded_push(
                    data,
                    start,
                    pos0,
                    reader.spec_pos(),
                    contours@,
                    contour,
                );
            }
            contours.push(contour);
            i = i + 1;
        }
        Ok(Polygon { contours })
    }

    /// Reads one counted contour: a vertex count followed by that many
    /// six-word vertices.  A zero count is a format error.
    fn read_contour(reader: &mut ByteReader) -> (res: Result<Contour, Error>)
        ensures
            final(reader).spec_data() == old(reader).spec_data(),
            final(reader).spec_pos() >= old(reader).spec_pos(),
            res is Ok <==> spec_parse_contour(old(reader).spec_data(), old(reader).spec_pos())
                is Done,
            match res {
                Ok(c) => contour_encoded(
                    old(reader).spec_data(),
                    old(reader).spec_pos(),
                    final(reader).spec_pos(),
                    c,
                ) && ParseOutcome::Done(final(reader).spec_pos()) == spec_parse_contour(
                    old(reader).spec_data(),
                    old(reader).spec_pos(),
                ),
                Err(e) => {
                    &&& e.is_io() <==> spec_parse_contour(
                        old(reader).spec_data(),
                        old(reader).spec_pos(),
                    ) is Truncated
                    &&& e.is_invalid_format() <==> spec_parse_contour(
                        old(reader).spec_data(),
                        old(reader).spec_pos(),
                    ) is Malformed
                },
            },
    {
        let ghost data = old(reader).spec_data();
        let num_vertices = match reader.read_u32() {
            Ok(w) => w,
            Err(e) => {
                return Err(e);
            },
        };
        if num_vertices == 0 {
            return Err(Error::InvalidFormat("number of vertices is zero".to_owned()));
        }
        let ghost start = reader.spec_pos();
        let mut vertices: Vec<Vertex> = Vec::new();
        let mut i: u32 = 0;
        while i < num_vertices
            invariant
                data == old(reader).spec_data(),
                reader.spec_data() == data,
                old(reader).spec_pos() + 4 <= data.len(),
                num_vertices == be_word(data, old(reader).spec_pos()),
                num_vertices != 0,
                start == old(reader).spec_pos() + 4,
                0 <= i <= num_vertices,
                vertices@.len() == i,
                reader.spec_pos() == start + 24 * i,
                start + 24 * num_vertices <= data.len() || i < num_vertices,
                forall|k: int|
                    0 <= k < i ==> vertex_encoded(data, start + 24 * k, #[trigger] vertices@[k]),
            decreases num_vertices - i,
        {
            let ws = match reader.read_words(6) {
                Ok(ws) => ws,
                Err(e) => {
                    return Err(e);
                },
            };
            let v = Vertex { inner: [ws[0], ws[1], ws[2], ws[3], ws[4], ws[5]] };
            proof {
                assert(v.inner@ =~= ws@);
            }
            vertices.push(v);
            i = i + 1;
        }
        let c = Contour { inner: vertices };
        Ok(c)
    }
}

} // verus!
