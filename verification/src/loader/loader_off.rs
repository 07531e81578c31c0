//! A loader for the OFF text format: a simple polyhedron description with a
//! header line, a counts line, vertex lines and face lines.
//!
//! The functions here work on lines that the embedding application has
//! already read from its source.  Faces are triangulated as fans and every
//! index is checked against the vertex count; vertex coordinates are plain
//! text numbers whose floating-point evaluation the application supplies.

use vstd::prelude::*;

use crate::error::Error;
use crate::structure::IndexData;
use crate::structure::PrimitiveType;
use crate::structure::Primitives;

verus! {

/// Whether the character is an ASCII decimal digit.
pub open spec fn is_digit(c: char) -> bool {
    '0' <= c && c <= '9'
}

/// The numeric value of a sequence of decimal digits.
pub open spec fn decimal_value(s: Seq<char>) -> nat
    decreases s.len(),
{
    if s.len() == 0 {
        0
    } else {
        decimal_value(s.drop_last()) * 10 + (s.last() as int - '0' as int) as nat
    }
}

/// What parsing the characters as an unsigned decimal number yields: the
/// value when every character is a digit, there is at least one, and the
/// value is representable; nothing otherwise.
pub open spec fn spec_parse_usize(s: Seq<char>) -> Option<nat> {
    if s.len() > 0 && (forall|i: int| 0 <= i < s.len() ==> is_digit(#[trigger] s[i]))
        && decimal_value(s) <= usize::MAX {
        Some(decimal_value(s))
    } else {
        None
    }
}

/// Whether the character is an ASCII whitespace separator.
pub open spec fn is_space(c: char) -> bool {
    c == ' ' || c == '\t' || c == '\r' || c == '\n'
}

/// The whitespace-separated tokens of the characters, read left to right;
/// `current` carries the token begun before `s`.
pub open spec fn spec_tokens_from(s: Seq<char>, current: Seq<char>) -> Seq<Seq<char>>
    decreases s.len(),
{
    if s.len() == 0 {
        if current.len() > 0 {
            seq![current]
        } else {
            Seq::empty()
        }
    } else if is_space(s[0]) {
        (if current.len() > 0 {
            seq![current]
        } else {
            Seq::empty()
        }) + spec_tokens_from(s.drop_first(), Seq::empty())
    } else {
        spec_tokens_from(s.drop_first(), current.push(s[0]))
    }
}

/// The whitespace-separated tokens of the characters.
pub open spec fn spec_tokens(s: Seq<char>) -> Seq<Seq<char>> {
    spec_tokens_from(s, Seq::empty())
}

/// The characters of each token in the list.
pub open spec fn token_views(tokens: Seq<Vec<char>>) -> Seq<Seq<char>> {
    Seq::new(tokens.len(), |i: int| tokens[i]@)
}

/// How many corners a face line declares: its first token parsed as a
/// number.
pub open spec fn spec_face_corner_count(l: Seq<char>) -> Option<nat> {
    if spec_tokens(l).len() >= 1 {
        spec_parse_usize(spec_tokens(l)[0])
    } else {
        None
    }
}

/// The vertex index at corner `i` of a face line: its `i + 2`-nd token
/// parsed as a number (the first token is the corner count).
pub open spec fn spec_face_vertex(l: Seq<char>, i: int) -> Option<nat> {
    if spec_tokens(l).len() > i + 1 {
        spec_parse_usize(spec_tokens(l)[i + 1])
    } else {
        None
    }
}

/// How many fan triangles the first `n` face lines yield: a face with `c`
/// corners contributes `c - 2` triangles.
pub open spec fn spec_fan_triangle_count(face_lines: Seq<(usize, String)>, n: nat) -> int
    decreases n,
{
    if n == 0 {
        0
    } else {
        spec_fan_triangle_count(face_lines, (n - 1) as nat) + (
        match spec_face_corner_count(face_lines[n - 1].1@) {
            Some(c) => if c >= 2 {
                c - 2
            } else {
                0
            },
            None => 0,
        })
    }
}

/// Whether fan triangle `t` of the face line `l` stands at index position
/// `base + 3 * t` of `r`: the face's first corner, then its `t + 1`-st and
/// `t + 2`-nd.
pub open spec fn fan_triangle_at(r: Seq<u32>, l: Seq<char>, base: int, t: int) -> bool {
    &&& spec_face_vertex(l, 0) == Some(r[base + 3 * t] as nat)
    &&& spec_face_vertex(l, t + 1) == Some(r[base + 3 * t + 1] as nat)
    &&& spec_face_vertex(l, t + 2) == Some(r[base + 3 * t + 2] as nat)
}

/// A loader for the OFF polyhedron text format.
pub struct LoaderOff {}

impl LoaderOff {
    /// Returns a new OFF loader.
    pub fn new() -> (r: Self) {
        Self {  }
    }

    /// Wrapper for taking a line from the already-read lines.  Fails when no
    /// line is left.  Returns the one-based line number and the line itself.
    pub fn read_line(line: Option<&(usize, String)>) -> (r: Result<(usize, String), Error>)
        ensures
            r is Ok <==> (line matches Some(l) && l.0 < usize::MAX),
            match r {
                Ok((number, content)) => line matches Some(l) && number == l.0 + 1 && content@
                    == l.1@,
                Err(e) => e.is_io(),
            },
    {
        match line {
            Some((line_index, l)) => {
                if *line_index == usize::MAX {
                    return Err(Error::IO("line number out of range".to_owned()));
                }
                Ok((*line_index + 1, l.clone()))
            },
            None => Err(Error::IO("expected next line to read".to_owned())),
        }
    }

    /// Splits a line into its whitespace-separated tokens.
    pub fn split_tokens(line: &str) -> (r: Vec<Vec<char>>)
        ensures
            token_views(r@) == spec_tokens(line@),
    {
        let n = line.unicode_len();
        let mut tokens: Vec<Vec<char>> = Vec::new();
        let mut current: Vec<char> = Vec::new();
        let mut i: usize = 0;
        proof {
            assert(token_views(tokens@) =~= Seq::<Seq<char>>::empty());
            assert(line@.skip(0) =~= line@);
            assert(current@ =~= Seq::<char>::empty());
            assert(token_views(tokens@) + spec_tokens_from(line@.skip(0), current@)
                =~= spec_tokens(line@));
        }
        while i < n
            invariant
                n == line@.len(),
                0 <= i <= n,
                token_views(tokens@) + spec_tokens_from(line@.skip(i as int), current@)
                    =~= spec_tokens(line@),
            decreases n - i,
        {
            proof {
                assert(line@.skip(i as int).drop_first() =~= line@.skip(i + 1));
                assert(line@.skip(i as int)[0] == line@[i as int]);
            }
            let ghost toks0 = tokens@;
            let ghost cur0 = current@;
            let c = line.get_char(i);
            if c == ' ' || c == '\t' || c == '\r' || c == '\n' {
                if current.len() > 0 {
                    tokens.push(current);
                    current = Vec::new();
                    proof {
                        assert(token_views(tokens@) =~= token_views(toks0) + seq![cur0]);
                        assert(current@ =~= Seq::<char>::empty());
                        assert(spec_tokens_from(line@.skip(i as int), cur0) =~= seq![cur0]
                            + spec_tokens_from(line@.skip(i + 1), Seq::empty()));
                        assert(token_views(tokens@) + spec_tokens_from(
                            line@.skip(i + 1),
                            current@,
                        ) =~= spec_tokens(line@));
                    }
                } else {
                    proof {
                        assert(cur0 =~= Seq::<char>::empty());
                        assert(spec_tokens_from(line@.skip(i as int), cur0) =~= spec_tokens_from(
                            line@.skip(i + 1),
                            Seq::empty(),
                        ));
                    }
                }
            } else {
                current.push(c);
                proof {
                    assert(current@ =~= cur0.push(line@[i as int]));
                    assert(spec_tokens_from(line@.skip(i as int), cur0) =~= spec_tokens_from(
                        line@.skip(i + 1),
                        cur0.push(line@[i as int]),
                    ));
                }
            }
            i = i + 1;
        }
        proof {
            assert(line@.skip(n as int) =~= Seq::<char>::empty());
        }
        if current.len() > 0 {
            let ghost toks0 = tokens@;
            let ghost cur0 = current@;
            tokens.push(current);
            proof {
                assert(token_views(tokens@) =~= token_views(toks0) + seq![cur0]);
                assert(token_views(tokens@) =~= spec_tokens(line@));
            }
        } else {
            proof {
                assert(token_views(tokens@) =~= spec_tokens(line@));
            }
        }
        tokens
    }

    /// Parses a single number from the token at the given position.  Fails
    /// when the token is missing, is not all digits, or does not fit.
    pub fn read_number(tokens: &Vec<Vec<char>>, position: usize, line_number: usize) -> (r: Result<
        usize,
        Error,
    >)
        ensures
            r is Ok <==> position < tokens@.len() && spec_parse_usize(tokens@[position as int]@)
                is Some,
            match r {
                Ok(v) => Some(v as nat) == spec_parse_usize(tokens@[position as int]@),
                Err(e) => if position < tokens@.len() {
                    e.is_invalid_format()
                } else {
                    e.is_io()
                },
            },
    {
        if position >= tokens.len() {
            return Err(Error::IO("expected next number to read".to_owned()));
        }
        let token = &tokens[position];
        if token.len() == 0 {
            return Err(Error::InvalidFormat("invalid number".to_owned()));
        }
        let mut value: usize = 0;
        let mut i: usize = 0;
        while i < token.len()
            invariant
                position < tokens@.len(),
                token@ == tokens@[position as int]@,
                0 < token@.len(),
                0 <= i <= token@.len(),
                forall|k: int| 0 <= k < i ==> is_digit(#[trigger] token@[k]),
                value == decimal_value(token@.take(i as int)),
                value <= usize::MAX,
            decreases token@.len() - i,
        {
            let c = token[i];
            if !(c >= '0' && c <= '9') {
                proof {
                    assert(!is_digit(token@[i as int]));
                    assert(spec_parse_usize(token@) is None);
                }
                return Err(Error::InvalidFormat("invalid number".to_owned()));
            }
            let d = (c as u32 - '0' as u32) as usize;
            if value > (usize::MAX - d) / 10 {
                proof {
                    // The value of any extension of these digits only grows,
                    // so the whole token cannot fit either.
                    assert(decimal_value(token@.take(i + 1)) == value * 10 + d) by {
                        assert(token@.take(i + 1).drop_last() =~= token@.take(i as int));
                        assert(token@.take(i + 1).last() == token@[i as int]);
                    }
                    assert(value * 10 + d > usize::MAX) by (nonlinear_arith)
                        requires
                            value > (usize::MAX - d) / 10,
                            0 <= d <= 9,
                    ;
                    if forall|k2: int| 0 <= k2 < token@.len() ==> is_digit(#[trigger] token@[k2]) {
                        Self::lemma_decimal_prefix_monotone(token@, i + 1);
                    }
                    assert(spec_parse_usize(token@) is None);
                }
                return Err(Error::InvalidFormat("number out of range".to_owned()));
            }
            proof {
                assert(decimal_value(token@.take(i + 1)) == value * 10 + d) by {
                    assert(token@.take(i + 1).drop_last() =~= token@.take(i as int));
                    assert(token@.take(i + 1).last() == token@[i as int]);
                }
                assert(value * 10 + d <= usize::MAX) by (nonlinear_arith)
                    requires
                        value <= (usize::MAX - d) / 10,
                        0 <= d <= 9,
                ;
            }
            value = value * 10 + d;
            i = i + 1;
        }
        proof {
            assert(token@.take(token@.len() as int) =~= token@);
        }
        Ok(value)
    }

    /// A longer digit string never has a smaller value than its prefix.
    proof fn lemma_decimal_prefix_monotone(s: Seq<char>, k: int)
        requires
            0 <= k <= s.len(),
            forall|i: int| 0 <= i < s.len() ==> is_digit(#[trigger] s[i]),
        ensures
            decimal_value(s) >= decimal_value(s.take(k)),
        decreases s.len() - k,
    {
        if k == s.len() {
            assert(s.take(k) =~= s);
        } else {
            Self::lemma_decimal_prefix_monotone(s, k + 1);
            assert(s.take(k + 1).drop_last() =~= s.take(k));
            assert(decimal_value(s.take(k + 1)) == decimal_value(s.take(k)) * 10 + (s.take(
                k + 1,
            ).last() as int - '0' as int) as nat);
            assert(decimal_value(s.take(k)) * 10 >= decimal_value(s.take(k))) by (nonlinear_arith)
                requires
                    decimal_value(s.take(k)) >= 0,
            ;
        }
    }

    /// Reads and checks the header, which is the first line: its only token
    /// must be `OFF`.
    pub fn read_header(line: Option<&(usize, String)>) -> (r: Result<(), Error>)
        ensures
            r is Ok <==> (line matches Some(l) && l.0 < usize::MAX && spec_tokens(l.1@) == seq![
                "OFF"@,
            ]),
            r matches Err(e) ==> (e.is_io() || e.is_invalid_format()),
            r matches Err(e) ==> (e.is_io() <==> !(line matches Some(l) && l.0 < usize::MAX)),
    {
        let (_line_number, header) = match Self::read_line(line) {
            Ok(l) => l,
            Err(e) => {
                return Err(e);
            },
        };
        let tokens = Self::split_tokens(header.as_str());
        proof {
            reveal_strlit("OFF");
            assert("OFF"@ =~= seq!['O', 'F', 'F']);
        }
        if tokens.len() != 1 {
            proof {
                assert(token_views(tokens@).len() != 1);
                assert(spec_tokens(header@) != seq!["OFF"@]);
            }
            return Err(Error::InvalidFormat("file has invalid header".to_owned()));
        }
        let t = &tokens[0];
        proof {
            assert(t@ == token_views(tokens@)[0]);
        }
        if t.len() == 3 && t[0] == 'O' && t[1] == 'F' && t[2] == 'F' {
            proof {
                assert(t@ =~= "OFF"@);
                assert(token_views(tokens@) =~= seq!["OFF"@]);
            }
            Ok(())
        } else {
            proof {
                assert(spec_tokens(header@) != seq!["OFF"@]) by {
                    if spec_tokens(header@) == seq!["OFF"@] {
                        assert(token_views(tokens@)[0] == "OFF"@);
                        assert(t@ =~= seq!['O', 'F', 'F']);
                    }
                }
            }
            Err(Error::InvalidFormat("file has invalid header".to_owned()))
        }
    }

    /// Reads the number of vertices and faces: the first two numbers of the
    /// counts line.
    pub fn read_num_vertices_and_faces(line: Option<&(usize, String)>) -> (r: Result<
        (usize, usize),
        Error,
    >)
        ensures
            r is Ok <==> (line matches Some(l) && l.0 < usize::MAX && spec_tokens(l.1@).len() >= 2
                && spec_parse_usize(spec_tokens(l.1@)[0]) is Some && spec_parse_usize(
                spec_tokens(l.1@)[1],
            ) is Some),
            r matches Ok((num_vertices, num_faces)) ==> (line matches Some(l) && Some(
                num_vertices as nat,
            ) == spec_parse_usize(spec_tokens(l.1@)[0]) && Some(num_faces as nat)
                == spec_parse_usize(spec_tokens(l.1@)[1])),
            r is Err ==> (r->Err_0.is_io() || r->Err_0.is_invalid_format()),
    {
        let (line_number, content) = match Self::read_line(line) {
            Ok(l) => l,
            Err(e) => {
                return Err(e);
            },
        };
        let tokens = Self::split_tokens(content.as_str());
        proof {
            assert(tokens@.len() == spec_tokens(content@).len());
            if tokens@.len() > 0 {
                assert(tokens@[0]@ == token_views(tokens@)[0]);
            }
            if tokens@.len() > 1 {
                assert(tokens@[1]@ == token_views(tokens@)[1]);
            }
        }
        let num_vertices = match Self::read_number(&tokens, 0, line_number) {
            Ok(v) => v,
            Err(e) => {
                return Err(e);
            },
        };
        let num_faces = match Self::read_number(&tokens, 1, line_number) {
            Ok(v) => v,
            Err(e) => {
                return Err(e);
            },
        };
        Ok((num_vertices, num_faces))
    }

    /// Reads the faces from the face lines and triangulates each face as a
    /// fan around its first vertex.
    ///
    /// Each face line holds its vertex count and then that many indices; an
    /// index at or beyond the vertex count and a face with fewer than three
    /// vertices are format errors.  On success the result is triangle
    /// primitives whose indices all reference existing vertices.
    pub fn read_primitives(
        face_lines: &Vec<(usize, String)>,
        num_faces: usize,
        num_vertices: usize,
    ) -> (r: Result<Primitives, Error>)
        requires
            num_vertices <= u32::MAX,
        ensures
            r is Err ==> (r->Err_0.is_io() || r->Err_0.is_invalid_format()),
            match r {
                Ok(p) => {
                    &&& p.spec_primitive_type() == PrimitiveType::Triangles
                    &&& p.spec_index_data() matches IndexData::Indices(v) && ({
                        &&& v@.len() == 3 * spec_fan_triangle_count(face_lines@, num_faces as nat)
                        &&& forall|k: int|
                            0 <= k < v@.len() ==> (#[trigger] v@[k]) < num_vertices
                        &&& forall|f: int, t: int|
                            0 <= f < num_faces && 0 <= t < (
                            spec_face_corner_count(face_lines@[f].1@)->Some_0 - 2)
                                ==> #[trigger] fan_triangle_at(
                                v@,
                                face_lines@[f].1@,
                                3 * spec_fan_triangle_count(face_lines@, f as nat),
                                t,
                            )
                    })
                },
                Err(e) => true,
            },
    {
        let mut indices: Vec<u32> = Vec::new();
        let mut face: usize = 0;
        while face < num_faces
            invariant
                num_vertices <= u32::MAX,
                0 <= face <= num_faces,
                indices@.len() == 3 * spec_fan_triangle_count(face_lines@, face as nat),
                forall|k: int| 0 <= k < indices@.len() ==> (#[trigger] indices@[k]) < num_vertices,
                forall|f: int|
                    0 <= f < face ==> ((#[trigger] spec_face_corner_count(face_lines@[f].1@))
                        matches Some(c) && c >= 3),
                forall|f: int, t: int|
                    0 <= f < face && 0 <= t < (spec_face_corner_count(face_lines@[f].1@)->Some_0
                        - 2) ==> #[trigger] fan_triangle_at(
                        indices@,
                        face_lines@[f].1@,
                        3 * spec_fan_triangle_count(face_lines@, f as nat),
                        t,
                    ),
            decreases num_faces - face,
        {
            if face >= face_lines.len() {
                return Err(Error::IO("expected next line to read".to_owned()));
            }
            let (line_number, content) = match Self::read_line(Some(&face_lines[face])) {
                Ok(l) => l,
                Err(e) => {
                    return Err(e);
                },
            };
            let ghost l = face_lines@[face as int].1@;
            let tokens = Self::split_tokens(content.as_str());
            proof {
                assert(content@ == l);
                assert(tokens@.len() == spec_tokens(l).len());
                if tokens@.len() > 0 {
                    assert(tokens@[0]@ == token_views(tokens@)[0]);
                }
            }
            let n = match Self::read_number(&tokens, 0, line_number) {
                Ok(v) => v,
                Err(e) => {
                    return Err(e);
                },
            };
            proof {
                assert(spec_face_corner_count(l) == Some(n as nat));
            }
            if n < 3 {
                return Err(
                    Error::InvalidFormat("face with fewer than three vertices".to_owned()),
                );
            }
            let v0 = match Self::read_face_index(&tokens, 1, line_number, num_vertices) {
                Ok(v) => v,
                Err(e) => {
                    return Err(e);
                },
            };
            let mut v1 = match Self::read_face_index(&tokens, 2, line_number, num_vertices) {
                Ok(v) => v,
                Err(e) => {
                    return Err(e);
                },
            };
            proof {
                assert(tokens@[1]@ == token_views(tokens@)[1]);
                assert(tokens@[2]@ == token_views(tokens@)[2]);
                assert(spec_face_vertex(l, 0) == Some(v0 as nat));
                assert(spec_face_vertex(l, 1) == Some(v1 as nat));
            }
            let ghost base = indices@.len() as int;
            let mut corner: usize = 2;
            while corner < n
                invariant
                    num_vertices <= u32::MAX,
                    2 <= corner <= n,
                    n >= 3,
                    l == face_lines@[face as int].1@,
                    token_views(tokens@) == spec_tokens(l),
                    spec_face_corner_count(l) == Some(n as nat),
                    base == 3 * spec_fan_triangle_count(face_lines@, face as nat),
                    indices@.len() == base + 3 * (corner - 2),
                    forall|k: int|
                        0 <= k < indices@.len() ==> (#[trigger] indices@[k]) < num_vertices,
                    v0 < num_vertices,
                    v1 < num_vertices,
                    0 <= face < num_faces,
                    face < face_lines@.len(),
                    forall|f: int|
                        0 <= f < face ==> ((#[trigger] spec_face_corner_count(face_lines@[f].1@))
                            matches Some(c) && c >= 3),
                    forall|f: int, t: int|
                        0 <= f < face && 0 <= t < (
                        spec_face_corner_count(face_lines@[f].1@)->Some_0 - 2)
                            ==> #[trigger] fan_triangle_at(
                            indices@,
                            face_lines@[f].1@,
                            3 * spec_fan_triangle_count(face_lines@, f as nat),
                            t,
                        ),
                    forall|t: int|
                        0 <= t < corner - 2 ==> #[trigger] fan_triangle_at(indices@, l, base, t),
                    spec_face_vertex(l, 0) == Some(v0 as nat),
                    spec_face_vertex(l, corner - 1) == Some(v1 as nat),
                decreases n - corner,
            {
                let v2 = match Self::read_face_index(&tokens, corner + 1, line_number, num_vertices
                ) {
                    Ok(v) => v,
                    Err(e) => {
                        return Err(e);
                    },
                };
                proof {
                    assert(tokens@[corner + 1]@ == token_views(tokens@)[corner + 1]);
                    assert(spec_face_vertex(l, corner as int) == Some(v2 as nat));
                }
                let ghost before = indices@;
                indices.push(v0);
                indices.push(v1);
                indices.push(v2);
                proof {
                    assert(indices@ == before.push(v0).push(v1).push(v2));
                    assert(fan_triangle_at(indices@, l, base, corner - 2));
                    assert forall|f: int, t: int|
                        0 <= f < face && 0 <= t < (
                        spec_face_corner_count(face_lines@[f].1@)->Some_0 - 2)
                            implies #[trigger] fan_triangle_at(
                            indices@,
                            face_lines@[f].1@,
                            3 * spec_fan_triangle_count(face_lines@, f as nat),
                            t,
                        ) by {
                        assert(fan_triangle_at(
                            before,
                            face_lines@[f].1@,
                            3 * spec_fan_triangle_count(face_lines@, f as nat),
                            t,
                        ));
                        let cf = spec_face_corner_count(face_lines@[f].1@)->Some_0;
                        assert(spec_fan_triangle_count(face_lines@, (f + 1) as nat)
                            == spec_fan_triangle_count(face_lines@, f as nat) + (cf - 2));
                        Self::lemma_fan_count_monotone(face_lines@, (f + 1) as nat, face as nat);
                        assert(spec_fan_triangle_count(face_lines@, f as nat) + (t + 1)
                            <= spec_fan_triangle_count(face_lines@, face as nat));
                        let b = 3 * spec_fan_triangle_count(face_lines@, f as nat) + 3 * t;
                        Self::lemma_fan_count_monotone(face_lines@, 0, f as nat);
                        assert(0 <= b);
                        assert(b + 2 < before.len());
                        Self::lemma_push3_prefix(before, v0, v1, v2, b);
                        Self::lemma_push3_prefix(before, v0, v1, v2, b + 1);
                        Self::lemma_push3_prefix(before, v0, v1, v2, b + 2);
                    }
                    assert forall|t: int| 0 <= t < corner + 1 - 2 implies #[trigger] fan_triangle_at(
                        indices@,
                        l,
                        base,
                        t,
                    ) by {
                        if t < corner - 2 {
                            assert(fan_triangle_at(before, l, base, t));
                            Self::lemma_fan_count_monotone(face_lines@, 0, face as nat);
                            assert(0 <= base);
                            assert(base + 3 * t + 2 < before.len());
                            Self::lemma_push3_prefix(before, v0, v1, v2, base + 3 * t);
                            Self::lemma_push3_prefix(before, v0, v1, v2, base + 3 * t + 1);
                            Self::lemma_push3_prefix(before, v0, v1, v2, base + 3 * t + 2);
                        }
                    }
                }
                v1 = v2;
                corner = corner + 1;
            }
            face = face + 1;
        }
        let primitives = match Primitives::new(IndexData::Indices(indices), PrimitiveType::Triangles) {
            Ok(p) => p,
            Err(e) => {
                return Err(e);
            },
        };
        Ok(primitives)
    }

    /// Pushing three values leaves every earlier element in place.
    proof fn lemma_push3_prefix(s: Seq<u32>, a: u32, b: u32, c: u32, i: int)
        requires
            0 <= i < s.len(),
        ensures
            s.push(a).push(b).push(c)[i] == s[i],
    {
    }

    /// Earlier faces' triangles lie below the later faces' base offsets.
    proof fn lemma_fan_count_monotone(face_lines: Seq<(usize, String)>, a: nat, b: nat)
        requires
            a <= b,
        ensures
            spec_fan_triangle_count(face_lines, a) <= spec_fan_triangle_count(face_lines, b),
        decreases b - a,
    {
        if a < b {
            Self::lemma_fan_count_monotone(face_lines, a, (b - 1) as nat);
        }
    }

    /// Reads one vertex index of a face and checks it against the vertex
    /// count.
    fn read_face_index(
        tokens: &Vec<Vec<char>>,
        position: usize,
        line_number: usize,
        num_vertices: usize,
    ) -> (r: Result<u32, Error>)
        requires
            num_vertices <= u32::MAX,
        ensures
            match r {
                Ok(v) => position < tokens@.len() && v < num_vertices && Some(v as nat)
                    == spec_parse_usize(tokens@[position as int]@),
                Err(e) => e.is_io() || e.is_invalid_format(),
            },
    {
        let v = match Self::read_number(tokens, position, line_number) {
            Ok(v) => v,
            Err(e) => {
                return Err(e);
            },
        };
        if v >= num_vertices {
            return Err(Error::InvalidFormat("index out of range of the vertex count".to_owned()));
        }
        Ok(v as u32)
    }
}

} // verus!
