//! The index topology of the tessellated solids.
//!
//! These functions produce the triangle index lists of each solid's mesh.
//! Vertex coordinates are supplied elsewhere; what is proved here is the
//! combinatorial shape: how many vertices a solid spans and that every
//! triangle references only those vertices.

use vstd::prelude::*;

verus! {

/// Multiplying both sides of an inequality by a nonnegative factor keeps it.
proof fn lemma_mul_le(a: int, b: int, c: int)
    requires
        a <= b,
        c >= 0,
    ensures
        a * c <= b * c,
{
    assert(a * c <= b * c) by (nonlinear_arith)
        requires
            a <= b,
            c >= 0,
    ;
}

/// The triangle indices of a box: six faces of four vertices each, two
/// triangles per face, no vertex shared across faces so edges stay sharp.
pub open spec fn box_indices_spec() -> Seq<u32> {
    seq![
        0u32, 1u32, 2u32, 2u32, 3u32, 0u32,  // front
        4u32, 5u32, 6u32, 6u32, 7u32, 4u32,  // back
        8u32, 9u32, 10u32, 10u32, 11u32, 8u32,  // left
        12u32, 13u32, 14u32, 14u32, 15u32, 12u32,  // right
        16u32, 17u32, 18u32, 18u32, 19u32, 16u32,  // top
        20u32, 21u32, 22u32, 22u32, 23u32, 20u32,  // bottom
    ]
}

/// The number of vertices a box mesh holds.
pub const BOX_VERTEX_COUNT: u32 = 24;

/// Returns the triangle indices of a box: 36 indices over 24 vertices.
pub fn box_indices() -> (r: Vec<u32>)
    ensures
        r@ == box_indices_spec(),
        r@.len() == 36,
        forall|k: int| 0 <= k < r@.len() ==> r@[k] < BOX_VERTEX_COUNT,
{
    let r: Vec<u32> = vec![
        0, 1, 2, 2, 3, 0,
        4, 5, 6, 6, 7, 4,
        8, 9, 10, 10, 11, 8,
        12, 13, 14, 14, 15, 12,
        16, 17, 18, 18, 19, 16,
        20, 21, 22, 22, 23, 20,
    ];
    proof {
        assert(r@ =~= box_indices_spec());
        assert forall|k: int| 0 <= k < r@.len() implies r@[k] < BOX_VERTEX_COUNT by {
            assert(r@[k] == box_indices_spec()[k]);
        }
    }
    r
}

/// The triangle indices of the icosahedron that seeds the sphere
/// subdivision: twenty faces over twelve vertices.
pub open spec fn icosahedron_indices_spec() -> Seq<u32> {
    seq![
        1u32, 0u32, 4u32, 0u32, 1u32, 6u32, 2u32, 3u32, 5u32, 3u32, 2u32, 7u32, 4u32, 5u32, 10u32,
        5u32, 4u32, 8u32, 6u32, 7u32, 9u32, 7u32, 6u32, 11u32, 8u32, 9u32, 2u32, 9u32, 8u32, 0u32,
        10u32, 11u32, 1u32, 11u32, 10u32, 3u32, 0u32, 8u32, 4u32, 0u32, 6u32, 9u32, 1u32, 4u32,
        10u32, 1u32, 11u32, 6u32, 2u32, 5u32, 8u32, 2u32, 9u32, 7u32, 3u32, 10u32, 5u32, 3u32,
        7u32, 11u32,
    ]
}

/// The number of vertices of the icosahedron.
pub const ICOSAHEDRON_VERTEX_COUNT: u32 = 12;

/// Returns the triangle indices of the icosahedron seed: 60 indices over 12
/// vertices.
pub fn icosahedron_indices() -> (r: Vec<u32>)
    ensures
        r@ == icosahedron_indices_spec(),
        r@.len() == 60,
        forall|k: int| 0 <= k < r@.len() ==> r@[k] < ICOSAHEDRON_VERTEX_COUNT,
{
    let r: Vec<u32> = vec![
        1, 0, 4, 0, 1, 6, 2, 3, 5, 3, 2, 7, 4, 5, 10, 5, 4, 8, 6, 7, 9, 7, 6, 11, 8, 9, 2, 9, 8,
        0, 10, 11, 1, 11, 10, 3, 0, 8, 4, 0, 6, 9, 1, 4, 10, 1, 11, 6, 2, 5, 8, 2, 9, 7, 3, 10, 5,
        3, 7, 11,
    ];
    proof {
        assert(r@ =~= icosahedron_indices_spec());
        assert forall|k: int| 0 <= k < r@.len() implies r@[k] < ICOSAHEDRON_VERTEX_COUNT by {
            assert(r@[k] == icosahedron_indices_spec()[k]);
        }
    }
    r
}

/// The tessellation parameter for the cylinder.
#[derive(Clone, Copy, Debug, PartialEq, Eq, Structural)]
pub struct CylinderTessellationParameter {
    /// The number of concentric circles on each cap, the center counting as
    /// the innermost.  Two is the minimum: a center and one outer circle.
    pub num_radial_circles: usize,
    /// The number of quad rows along the height.  Two is the minimum: one
    /// vertex ring at the bottom, one in the middle and one at the top.
    pub num_height_segments: usize,
    /// The number of segments per circle; at least four.
    pub num_segments_per_circle: usize,
}

impl CylinderTessellationParameter {
    /// The hard floor on every parameter: at least four circle segments and
    /// at least two height and radial segments.
    pub open spec fn wf(&self) -> bool {
        &&& self.num_radial_circles >= 2
        &&& self.num_height_segments >= 2
        &&& self.num_segments_per_circle >= 4
    }
}

/// How many vertices one cylinder cap spans: a center vertex and one ring of
/// vertices per circle beyond the center.
pub open spec fn spec_cap_vertex_count(t: CylinderTessellationParameter) -> int {
    (t.num_radial_circles - 1) * t.num_segments_per_circle + 1
}

/// How many indices one cylinder cap's triangles hold: a fan around the
/// center, then two triangles per segment between consecutive rings.
pub open spec fn spec_cap_index_count(t: CylinderTessellationParameter) -> int {
    3 * t.num_segments_per_circle + 6 * t.num_segments_per_circle * (t.num_radial_circles - 2)
}

/// How many vertices the cylinder side wall spans: one ring per height step.
pub open spec fn spec_side_vertex_count(t: CylinderTessellationParameter) -> int {
    (t.num_height_segments + 1) * t.num_segments_per_circle
}

/// How many indices the side wall's triangles hold: two triangles per quad of
/// the height-by-segment grid.
pub open spec fn spec_side_index_count(t: CylinderTessellationParameter) -> int {
    6 * t.num_height_segments * t.num_segments_per_circle
}

/// Returns the number of vertices one cylinder cap spans.
pub fn cylinder_cap_vertex_count(t: &CylinderTessellationParameter) -> (r: usize)
    requires
        t.wf(),
        spec_cap_vertex_count(*t) <= usize::MAX,
    ensures
        r == spec_cap_vertex_count(*t),
{
    (t.num_radial_circles - 1) * t.num_segments_per_circle + 1
}

/// Returns the number of vertices the cylinder side wall spans.
pub fn cylinder_side_vertex_count(t: &CylinderTessellationParameter) -> (r: usize)
    requires
        t.wf(),
        spec_side_vertex_count(*t) <= usize::MAX,
    ensures
        r == spec_side_vertex_count(*t),
{
    proof {
        lemma_mul_le(1, t.num_segments_per_circle as int, t.num_height_segments + 1);
        assert((t.num_height_segments + 1) * 1 == t.num_height_segments + 1) by (nonlinear_arith);
        assert((t.num_height_segments + 1) * t.num_segments_per_circle == t.num_segments_per_circle
            * (t.num_height_segments + 1)) by (nonlinear_arith);
    }
    (t.num_height_segments + 1) * t.num_segments_per_circle
}

/// The winding offset of a cap: the bottom cap mirrors the top cap's
/// winding so that both face away from the cylinder body.
pub open spec fn spec_winding(bottom: bool) -> int {
    if bottom {
        1
    } else {
        0
    }
}

/// Whether the `i`-th fan triangle of a cap stands at its place in the index
/// list: the center vertex and two consecutive vertices of the innermost
/// ring, in the winding direction `d`.
pub open spec fn fan_triangle_ok(r: Seq<u32>, off: int, s: int, d: int, i: int) -> bool {
    &&& r[3 * i] == off
    &&& r[3 * i + 1] == off + 1 + ((i + d) % s)
    &&& r[3 * i + 2] == off + 1 + ((i + (1 + d) % 2) % s)
}

/// Whether the `i`-th quad between cap rings `c - 1` and `c` stands, as two
/// triangles, at its place in the index list.  `cvo` is the index of ring
/// `c`'s first vertex; the ring below starts `s` vertices earlier.
pub open spec fn cap_quad_ok(r: Seq<u32>, cvo: int, s: int, d: int, base: int, i: int) -> bool {
    {
        let i2 = cvo + ((i + d) % s);
        let i3 = cvo + ((i + (1 + d) % 2) % s);
        let i0 = i2 - s;
        let i1 = i3 - s;
        &&& r[base + 6 * i] == i1
        &&& r[base + 6 * i + 1] == i0
        &&& r[base + 6 * i + 2] == i2
        &&& r[base + 6 * i + 3] == i1
        &&& r[base + 6 * i + 4] == i2
        &&& r[base + 6 * i + 5] == i3
    }
}

/// Returns the triangle indices of one cylinder cap whose vertices start at
/// `vertex_offset`: first the center vertex, then the rings from innermost to
/// outermost, each ring holding one vertex per segment.
///
/// The cap is a fan of triangles around the center plus, between every two
/// consecutive rings, two triangles per segment.  `bottom` flips the winding
/// direction, so that both caps face away from the cylinder.  Every index
/// references one of the cap's own vertices.
pub fn cylinder_cap_indices(
    t: &CylinderTessellationParameter,
    bottom: bool,
    vertex_offset: u32,
) -> (r: Vec<u32>)
    requires
        t.wf(),
        vertex_offset + spec_cap_vertex_count(*t) <= u32::MAX,
        spec_cap_index_count(*t) <= usize::MAX,
    ensures
        r@.len() == spec_cap_index_count(*t),
        r@.len() % 3 == 0,
        forall|k: int|
            0 <= k < r@.len() ==> vertex_offset <= #[trigger] r@[k] < vertex_offset
                + spec_cap_vertex_count(*t),
        forall|i: int|
            0 <= i < t.num_segments_per_circle ==> #[trigger] fan_triangle_ok(
                r@,
                vertex_offset as int,
                t.num_segments_per_circle as int,
                spec_winding(bottom),
                i,
            ),
        forall|c: int, i: int|
            2 <= c < t.num_radial_circles && 0 <= i < t.num_segments_per_circle
                ==> #[trigger] cap_quad_ok(
                r@,
                vertex_offset + 1 + (c - 1) * t.num_segments_per_circle,
                t.num_segments_per_circle as int,
                spec_winding(bottom),
                3 * t.num_segments_per_circle + 6 * t.num_segments_per_circle * (c - 2),
                i,
            ),
{
    let s = t.num_segments_per_circle;
    let d: usize = if bottom {
        1
    } else {
        0
    };
    let mut indices: Vec<u32> = Vec::new();
    let mut circle_index: usize = 1;
    while circle_index < t.num_radial_circles
        invariant
            t.wf(),
            1 <= circle_index <= t.num_radial_circles,
            s == t.num_segments_per_circle,
            d <= 1,
            vertex_offset + spec_cap_vertex_count(*t) <= u32::MAX,
            spec_cap_index_count(*t) <= usize::MAX,
            indices@.len() == if circle_index == 1 {
                0int
            } else {
                3 * s + 6 * s * (circle_index - 2)
            },
            indices@.len() % 3 == 0,
            forall|k: int|
                0 <= k < indices@.len() ==> vertex_offset <= #[trigger] indices@[k] < vertex_offset
                    + spec_cap_vertex_count(*t),
            circle_index >= 2 ==> forall|i: int|
                0 <= i < s ==> #[trigger] fan_triangle_ok(
                    indices@,
                    vertex_offset as int,
                    s as int,
                    d as int,
                    i,
                ),
            forall|c: int, i: int|
                2 <= c < circle_index && 0 <= i < s ==> #[trigger] cap_quad_ok(
                    indices@,
                    vertex_offset + 1 + (c - 1) * s,
                    s as int,
                    d as int,
                    3 * s + 6 * s * (c - 2),
                    i,
                ),
        decreases t.num_radial_circles - circle_index,
    {
        proof {
            // The ring this circle adds stays inside the cap's vertex range,
            // and the triangles it adds stay inside the cap's index budget.
            lemma_mul_le(circle_index - 1, t.num_radial_circles - 1, s as int);
            lemma_mul_le(circle_index - 2, t.num_radial_circles - 2, 6 * (s as int));
            assert((circle_index - 1) * s <= (t.num_radial_circles - 1) * s);
            assert(6 * s * (circle_index - 2) == (circle_index - 2) * (6 * (s as int)))
                by (nonlinear_arith);
            assert(6 * s * (t.num_radial_circles - 2) == (t.num_radial_circles - 2) * (6 * (
            s as int))) by (nonlinear_arith);
            lemma_mul_le(circle_index as int, t.num_radial_circles - 1, s as int);
            assert((circle_index as int) * s == (circle_index - 1) * s + s) by (nonlinear_arith);
            if circle_index >= 2 {
                lemma_mul_le(1, circle_index - 1, s as int);
                assert(1 * (s as int) == s) by (nonlinear_arith);
            }
        }
        let circle_vertex_offset: u32 = vertex_offset + 1 + ((circle_index - 1) * s) as u32;
        if circle_index == 1 {
            // The innermost ring forms a fan around the center vertex.
            let mut i: usize = 0;
            while i < s
                invariant
                    t.wf(),
                    s == t.num_segments_per_circle,
                    d <= 1,
                    0 <= i <= s,
                    vertex_offset + spec_cap_vertex_count(*t) <= u32::MAX,
                    spec_cap_index_count(*t) <= usize::MAX,
                    indices@.len() == 3 * i,
                    forall|k: int|
                        0 <= k < indices@.len() ==> vertex_offset <= #[trigger] indices@[k]
                            < vertex_offset + spec_cap_vertex_count(*t),
                    forall|i2: int|
                        0 <= i2 < i ==> #[trigger] fan_triangle_ok(
                            indices@,
                            vertex_offset as int,
                            s as int,
                            d as int,
                            i2,
                        ),
                decreases s - i,
            {
                proof {
                    lemma_mul_le(1, t.num_radial_circles - 1, s as int);
                    assert(1 * (s as int) == s) by (nonlinear_arith);
                    assert(spec_cap_vertex_count(*t) >= s + 1);
                    assert(spec_cap_index_count(*t) >= 3 * s) by {
                        lemma_mul_le(0, t.num_radial_circles - 2, 6 * (s as int));
                        assert(6 * s * (t.num_radial_circles - 2) == (t.num_radial_circles - 2) * (
                        6 * (s as int))) by (nonlinear_arith);
                        assert(0 * (6 * (s as int)) == 0) by (nonlinear_arith);
                    }
                }
                let i0 = vertex_offset;
                let i1 = vertex_offset + 1 + ((i + d) % s) as u32;
                let i2 = vertex_offset + 1 + ((i + (1 + d) % 2) % s) as u32;
                let ghost before = indices@;
                indices.push(i0);
                indices.push(i1);
                indices.push(i2);
                proof {
                    assert(fan_triangle_ok(indices@, vertex_offset as int, s as int, d as int, i as int));
                    assert forall|i2b: int|
                        0 <= i2b < i + 1 implies #[trigger] fan_triangle_ok(
                        indices@,
                        vertex_offset as int,
                        s as int,
                        d as int,
                        i2b,
                    ) by {
                        if i2b < i {
                            assert(fan_triangle_ok(before, vertex_offset as int, s as int, d as int, i2b));
                            assert(indices@[3 * i2b] == before[3 * i2b]);
                            assert(indices@[3 * i2b + 1] == before[3 * i2b + 1]);
                            assert(indices@[3 * i2b + 2] == before[3 * i2b + 2]);
                        }
                    }
                }
                i = i + 1;
            }
        } else {
            // Between the previous ring and this one, each segment spans a
            // quad split into two triangles.
            let ghost len0 = indices@.len();
            let mut i: usize = 0;
            while i < s
                invariant
                    t.wf(),
                    s == t.num_segments_per_circle,
                    d <= 1,
                    0 <= i <= s,
                    2 <= circle_index < t.num_radial_circles,
                    vertex_offset + spec_cap_vertex_count(*t) <= u32::MAX,
                    spec_cap_index_count(*t) <= usize::MAX,
                    circle_vertex_offset == vertex_offset + 1 + (circle_index - 1) * s,
                    circle_vertex_offset + s <= vertex_offset + spec_cap_vertex_count(*t),
                    circle_vertex_offset >= vertex_offset + 1 + s,
                    len0 == 3 * s + 6 * s * (circle_index - 2),
                    indices@.len() == len0 + 6 * i,
                    forall|k: int|
                        0 <= k < indices@.len() ==> vertex_offset <= #[trigger] indices@[k]
                            < vertex_offset + spec_cap_vertex_count(*t),
                    forall|i2: int|
                        0 <= i2 < s ==> #[trigger] fan_triangle_ok(
                            indices@,
                            vertex_offset as int,
                            s as int,
                            d as int,
                            i2,
                        ),
                    forall|c: int, i2: int|
                        2 <= c < circle_index && 0 <= i2 < s ==> #[trigger] cap_quad_ok(
                            indices@,
                            vertex_offset + 1 + (c - 1) * s,
                            s as int,
                            d as int,
                            3 * s + 6 * s * (c - 2),
                            i2,
                        ),
                    forall|i2: int|
                        0 <= i2 < i ==> #[trigger] cap_quad_ok(
                            indices@,
                            circle_vertex_offset as int,
                            s as int,
                            d as int,
                            len0 as int,
                            i2,
                        ),
                decreases s - i,
            {
                let i2 = circle_vertex_offset + ((i + d) % s) as u32;
                let i3 = circle_vertex_offset + ((i + (1 + d) % 2) % s) as u32;
                let i0 = i2 - (s as u32);
                let i1 = i3 - (s as u32);
                let ghost before = indices@;
                indices.push(i1);
                indices.push(i0);
                indices.push(i2);
                indices.push(i1);
                indices.push(i2);
                indices.push(i3);
                proof {
                    // The six entries just pushed spell the new quad.
                    assert(indices@[len0 + 6 * i] == i1);
                    assert(indices@[len0 + 6 * i + 1] == i0);
                    assert(indices@[len0 + 6 * i + 2] == i2);
                    assert(indices@[len0 + 6 * i + 3] == i1);
                    assert(indices@[len0 + 6 * i + 4] == i2);
                    assert(indices@[len0 + 6 * i + 5] == i3);
                    assert(cap_quad_ok(
                        indices@,
                        circle_vertex_offset as int,
                        s as int,
                        d as int,
                        len0 as int,
                        i as int,
                    ));
                    // Everything recorded before sits at unchanged positions.
                    assert forall|i2b: int| 0 <= i2b < s implies #[trigger] fan_triangle_ok(
                        indices@,
                        vertex_offset as int,
                        s as int,
                        d as int,
                        i2b,
                    ) by {
                        assert(fan_triangle_ok(before, vertex_offset as int, s as int, d as int, i2b));
                        assert(3 * i2b + 2 < before.len());
                        assert(indices@[3 * i2b] == before[3 * i2b]);
                        assert(indices@[3 * i2b + 1] == before[3 * i2b + 1]);
                        assert(indices@[3 * i2b + 2] == before[3 * i2b + 2]);
                    }
                    assert forall|c: int, i2b: int|
                        2 <= c < circle_index && 0 <= i2b < s implies #[trigger] cap_quad_ok(
                        indices@,
                        vertex_offset + 1 + (c - 1) * s,
                        s as int,
                        d as int,
                        3 * s + 6 * s * (c - 2),
                        i2b,
                    ) by {
                        assert(cap_quad_ok(
                            before,
                            vertex_offset + 1 + (c - 1) * s,
                            s as int,
                            d as int,
                            3 * s + 6 * s * (c - 2),
                            i2b,
                        ));
                        let base = 3 * s + 6 * s * (c - 2);
                        assert(6 * s * (c - 2) + 6 * i2b + 6 <= 6 * s * (circle_index - 2)) by (
                        nonlinear_arith)
                            requires
                                2 <= c < circle_index,
                                0 <= i2b < s,
                        ;
                        assert(base + 6 * i2b + 5 < len0);
                        assert(indices@[base + 6 * i2b] == before[base + 6 * i2b]);
                        assert(indices@[base + 6 * i2b + 1] == before[base + 6 * i2b + 1]);
                        assert(indices@[base + 6 * i2b + 2] == before[base + 6 * i2b + 2]);
                        assert(indices@[base + 6 * i2b + 3] == before[base + 6 * i2b + 3]);
                        assert(indices@[base + 6 * i2b + 4] == before[base + 6 * i2b + 4]);
                        assert(indices@[base + 6 * i2b + 5] == before[base + 6 * i2b + 5]);
                    }
                    assert forall|i2b: int| 0 <= i2b < i implies #[trigger] cap_quad_ok(
                        indices@,
                        circle_vertex_offset as int,
                        s as int,
                        d as int,
                        len0 as int,
                        i2b,
                    ) by {
                        assert(cap_quad_ok(
                            before,
                            circle_vertex_offset as int,
                            s as int,
                            d as int,
                            len0 as int,
                            i2b,
                        ));
                        assert(len0 + 6 * i2b + 5 < before.len());
                        assert(indices@[len0 + 6 * i2b] == before[len0 + 6 * i2b]);
                        assert(indices@[len0 + 6 * i2b + 1] == before[len0 + 6 * i2b + 1]);
                        assert(indices@[len0 + 6 * i2b + 2] == before[len0 + 6 * i2b + 2]);
                        assert(indices@[len0 + 6 * i2b + 3] == before[len0 + 6 * i2b + 3]);
                        assert(indices@[len0 + 6 * i2b + 4] == before[len0 + 6 * i2b + 4]);
                        assert(indices@[len0 + 6 * i2b + 5] == before[len0 + 6 * i2b + 5]);
                    }
                }
                i = i + 1;
            }
        }
        proof {
            if circle_index >= 2 {
                assert(6 * s * (circle_index - 1) == 6 * s * (circle_index - 2) + 6 * s) by (
                nonlinear_arith);
            } else {
                assert(6 * s * (circle_index - 1) == 0) by (nonlinear_arith)
                    requires
                        circle_index == 1,
                ;
            }
        }
        circle_index = circle_index + 1;
    }
    proof {
        assert(indices@.len() == spec_cap_index_count(*t));
    }
    indices
}

/// Whether the `i`-th quad between side-wall rings `ring` and `ring + 1`
/// stands, as two triangles, at its place in the index list.
pub open spec fn side_quad_ok(r: Seq<u32>, off: int, s: int, ring: int, i: int) -> bool {
    {
        let base = 6 * s * ring + 6 * i;
        let i1 = off + ring * s + i;
        let i0 = off + ring * s + ((i + 1) % s);
        let i2 = i0 + s;
        let i3 = i1 + s;
        &&& r[base] == i1
        &&& r[base + 1] == i0
        &&& r[base + 2] == i2
        &&& r[base + 3] == i1
        &&& r[base + 4] == i2
        &&& r[base + 5] == i3
    }
}

/// Returns the triangle indices of the cylinder side wall whose vertex rings
/// start at `vertex_offset`: ring after ring from bottom to top, each ring
/// holding one vertex per segment.
///
/// Each quad of the height-by-segment grid is split into two triangles.
/// Every index references one of the wall's own vertices.
pub fn cylinder_side_indices(t: &CylinderTessellationParameter, vertex_offset: u32) -> (r: Vec<
    u32,
>)
    requires
        t.wf(),
        vertex_offset + spec_side_vertex_count(*t) <= u32::MAX,
        spec_side_index_count(*t) <= usize::MAX,
    ensures
        r@.len() == spec_side_index_count(*t),
        r@.len() % 3 == 0,
        forall|k: int|
            0 <= k < r@.len() ==> vertex_offset <= #[trigger] r@[k] < vertex_offset
                + spec_side_vertex_count(*t),
        forall|ring: int, i: int|
            0 <= ring < t.num_height_segments && 0 <= i < t.num_segments_per_circle
                ==> #[trigger] side_quad_ok(
                r@,
                vertex_offset as int,
                t.num_segments_per_circle as int,
                ring,
                i,
            ),
{
    let s = t.num_segments_per_circle;
    let h = t.num_height_segments;
    let mut indices: Vec<u32> = Vec::new();
    let mut ring: usize = 0;
    while ring < h
        invariant
            t.wf(),
            s == t.num_segments_per_circle,
            h == t.num_height_segments,
            0 <= ring <= h,
            vertex_offset + spec_side_vertex_count(*t) <= u32::MAX,
            spec_side_index_count(*t) <= usize::MAX,
            indices@.len() == 6 * s * ring,
            indices@.len() % 3 == 0,
            forall|k: int|
                0 <= k < indices@.len() ==> vertex_offset <= #[trigger] indices@[k] < vertex_offset
                    + spec_side_vertex_count(*t),
            forall|r2: int, i2: int|
                0 <= r2 < ring && 0 <= i2 < s ==> #[trigger] side_quad_ok(
                    indices@,
                    vertex_offset as int,
                    s as int,
                    r2,
                    i2,
                ),
        decreases h - ring,
    {
        proof {
            lemma_mul_le(ring + 2, h + 1int, s as int);
            assert((ring as int) * s <= (ring + 2) * s) by (nonlinear_arith)
                requires
                    s >= 0,
                    ring >= 0,
            ;
            assert((ring + 2) * s == (s as int) * (ring + 2)) by (nonlinear_arith);
            assert((h + 1) * s == spec_side_vertex_count(*t));
            assert((ring + 1) * s + s == (ring + 2) * s) by (nonlinear_arith);
            assert((ring as int) * s + s == (ring + 1) * s) by (nonlinear_arith);
            lemma_mul_le(ring as int, h as int, 6 * (s as int));
            assert(6 * s * ring == (ring as int) * (6 * (s as int))) by (nonlinear_arith);
            assert(6 * s * h == (h as int) * (6 * (s as int))) by (nonlinear_arith);
        }
        let ring_offset: u32 = vertex_offset + ((ring * s) as u32);
        let mut i: usize = 0;
        let ghost len0 = indices@.len();
        while i < s
            invariant
                t.wf(),
                s == t.num_segments_per_circle,
                h == t.num_height_segments,
                0 <= i <= s,
                0 <= ring < h,
                vertex_offset + spec_side_vertex_count(*t) <= u32::MAX,
                spec_side_index_count(*t) <= usize::MAX,
                ring_offset == vertex_offset + ring * s,
                ring_offset + 2 * s <= vertex_offset + spec_side_vertex_count(*t),
                len0 == 6 * s * ring,
                indices@.len() == len0 + 6 * i,
                forall|k: int|
                    0 <= k < indices@.len() ==> vertex_offset <= #[trigger] indices@[k]
                        < vertex_offset + spec_side_vertex_count(*t),
                forall|r2: int, i2: int|
                    0 <= r2 < ring && 0 <= i2 < s ==> #[trigger] side_quad_ok(
                        indices@,
                        vertex_offset as int,
                        s as int,
                        r2,
                        i2,
                    ),
                forall|i2: int|
                    0 <= i2 < i ==> #[trigger] side_quad_ok(
                        indices@,
                        vertex_offset as int,
                        s as int,
                        ring as int,
                        i2,
                    ),
            decreases s - i,
        {
            let i1 = ring_offset + (i as u32);
            let i0 = ring_offset + ((i + 1) % s) as u32;
            let i2 = i0 + (s as u32);
            let i3 = i1 + (s as u32);
            let ghost before = indices@;
            indices.push(i1);
            indices.push(i0);
            indices.push(i2);
            indices.push(i1);
            indices.push(i2);
            indices.push(i3);
            proof {
                // The six entries just pushed spell the new quad.
                assert(indices@[len0 + 6 * i] == i1);
                assert(indices@[len0 + 6 * i + 1] == i0);
                assert(indices@[len0 + 6 * i + 2] == i2);
                assert(indices@[len0 + 6 * i + 3] == i1);
                assert(indices@[len0 + 6 * i + 4] == i2);
                assert(indices@[len0 + 6 * i + 5] == i3);
                assert(side_quad_ok(indices@, vertex_offset as int, s as int, ring as int, i as int));
                // Everything recorded before sits at unchanged positions.
                assert forall|r2: int, i2b: int|
                    0 <= r2 < ring && 0 <= i2b < s implies #[trigger] side_quad_ok(
                    indices@,
                    vertex_offset as int,
                    s as int,
                    r2,
                    i2b,
                ) by {
                    assert(side_quad_ok(before, vertex_offset as int, s as int, r2, i2b));
                    let base = 6 * (s as int) * r2 + 6 * i2b;
                    assert(6 * (s as int) * r2 + 6 * i2b + 6 <= 6 * (s as int) * ring) by (
                    nonlinear_arith)
                        requires
                            0 <= r2 < ring,
                            0 <= i2b < s,
                    ;
                    assert(base + 5 < before.len());
                    assert(indices@[base] == before[base]);
                    assert(indices@[base + 1] == before[base + 1]);
                    assert(indices@[base + 2] == before[base + 2]);
                    assert(indices@[base + 3] == before[base + 3]);
                    assert(indices@[base + 4] == before[base + 4]);
                    assert(indices@[base + 5] == before[base + 5]);
                }
                assert forall|i2b: int| 0 <= i2b < i implies #[trigger] side_quad_ok(
                    indices@,
                    vertex_offset as int,
                    s as int,
                    ring as int,
                    i2b,
                ) by {
                    assert(side_quad_ok(before, vertex_offset as int, s as int, ring as int, i2b));
                    let base = 6 * (s as int) * (ring as int) + 6 * i2b;
                    assert(base + 5 < before.len());
                    assert(indices@[base] == before[base]);
                    assert(indices@[base + 1] == before[base + 1]);
                    assert(indices@[base + 2] == before[base + 2]);
                    assert(indices@[base + 3] == before[base + 3]);
                    assert(indices@[base + 4] == before[base + 4]);
                    assert(indices@[base + 5] == before[base + 5]);
                }
            }
            i = i + 1;
        }
        proof {
            assert(6 * s * (ring + 1) == 6 * s * ring + 6 * s) by (nonlinear_arith);
        }
        ring = ring + 1;
    }
    proof {
        assert(6 * s * h == 6 * h * s) by (nonlinear_arith);
    }
    indices
}

} // verus!
