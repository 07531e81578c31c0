//! The stream parser: drives the byte stream through header, model and the
//! group/primitive sections, invoking interpreter callbacks.

use vstd::prelude::*;
use vstd::utf8::decode_utf8;
use vstd::utf8::valid_utf8;

use crate::error::Error;
use crate::loader::loader_rvm::identifier::Identifier;
use crate::loader::loader_rvm::identifier::end_keyword_at;
use crate::loader::loader_rvm::identifier::keyword_at;
use crate::loader::loader_rvm::identifier::spec_first_keyword;
use crate::loader::loader_rvm::identifier::keyword_chars_at;
use crate::loader::loader_rvm::identifier::keyword_end_at;
use crate::loader::loader_rvm::identifier_reader::IdentifierReader;
use crate::loader::loader_rvm::primitive::ParseOutcome;
use crate::loader::loader_rvm::primitive::Primitive;
use crate::loader::loader_rvm::primitive::fixed_record_words;
use crate::loader::loader_rvm::primitive::primitive_record_decoded;
use crate::loader::loader_rvm::primitive::spec_parse_polygons_record;
use crate::loader::loader_rvm::reader::ByteReader;
use crate::loader::loader_rvm::reader::be_word;
use crate::loader::loader_rvm::reader::words_match;

verus! {

/// The characters that `String::from_utf8_lossy` yields for the given bytes.
/// The result depends on the bytes alone; on valid UTF-8 it equals the
/// decoded characters, which `decode_utf8` states exactly.
pub uninterp spec fn utf8_lossy_of(bytes: Seq<u8>) -> Seq<char>;

/// Relies on std's `String::from_utf8_lossy`: the result is a function of the
/// bytes alone, and bytes that are valid UTF-8 decode unchanged.
#[verifier::external_body]
fn bytes_to_string_lossy(bytes: &Vec<u8>) -> (r: String)
    ensures
        r@ == utf8_lossy_of(bytes@),
        valid_utf8(bytes@) ==> r@ == decode_utf8(bytes@),
{
    String::from_utf8_lossy(bytes.as_slice()).to_string()
}

/// The number of leading bytes before the first zero byte (or all of them,
/// when no byte is zero).
pub open spec fn trimmed_len(bytes: Seq<u8>) -> int
    decreases bytes.len(),
{
    if bytes.len() == 0 {
        0
    } else if bytes[0] == 0 {
        0
    } else {
        1 + trimmed_len(bytes.drop_first())
    }
}

/// The bytes before the first zero byte.
pub open spec fn trim_nul(bytes: Seq<u8>) -> Seq<u8> {
    bytes.take(trimmed_len(bytes))
}

/// The trimmed length is in range, the bytes before it are nonzero, and the
/// byte at it (if any) is zero.
pub proof fn lemma_trimmed_len(bytes: Seq<u8>)
    ensures
        0 <= trimmed_len(bytes) <= bytes.len(),
        forall|i: int| 0 <= i < trimmed_len(bytes) ==> bytes[i] != 0,
        trimmed_len(bytes) < bytes.len() ==> bytes[trimmed_len(bytes)] == 0,
    decreases bytes.len(),
{
    if bytes.len() == 0 {
    } else if bytes[0] == 0 {
    } else {
        lemma_trimmed_len(bytes.drop_first());
        assert forall|i: int| 0 <= i < trimmed_len(bytes) implies bytes[i] != 0 by {
            if i > 0 {
                assert(bytes.drop_first()[i - 1] == bytes[i]);
            }
        }
    }
}

/// Where a length-prefixed string starting at byte `pos` ends: a word count,
/// then four bytes per word.
pub open spec fn spec_string_end(data: Seq<u8>, pos: int) -> Option<int> {
    if pos + 4 > data.len() {
        None
    } else {
        {
            let count = be_word(data, pos);
            if pos + 4 + 4 * count > data.len() {
                None
            } else {
                Some(pos + 4 + 4 * count)
            }
        }
    }
}

/// The raw (untrimmed) bytes of the length-prefixed string at byte `pos`.
pub open spec fn string_bytes_at(data: Seq<u8>, pos: int) -> Seq<u8>
    recommends
        spec_string_end(data, pos) is Some,
{
    data.subrange(pos + 4, pos + 4 + 4 * be_word(data, pos))
}

/// The characters of the length-prefixed string at byte `pos`: the bytes up
/// to the first zero byte, decoded leniently from UTF-8.
pub open spec fn string_chars_at(data: Seq<u8>, pos: int) -> Seq<char>
    recommends
        spec_string_end(data, pos) is Some,
{
    utf8_lossy_of(trim_nul(string_bytes_at(data, pos)))
}

/// Where a `HEAD` section starting with the first keyword at or after `pos`
/// ends, if one parses there: the keyword must be `HEAD`, followed by two
/// unused words, the version word, four strings, and one more string when
/// the version is at least two.
pub open spec fn spec_head_end(data: Seq<u8>, pos: int) -> Option<int> {
    match spec_first_keyword(data, pos) {
        None => None,
        Some(j) => {
            if keyword_chars_at(data, j) != seq![72u8, 69u8, 65u8, 68u8] {
                None
            } else {
                {
                    let p = keyword_end_at(data, j);
                    if p + 12 > data.len() {
                        None
                    } else {
                        match spec_string_end(data, p + 12) {
                            None => None,
                            Some(q1) => match spec_string_end(data, q1) {
                                None => None,
                                Some(q2) => match spec_string_end(data, q2) {
                                    None => None,
                                    Some(q3) => match spec_string_end(data, q3) {
                                        None => None,
                                        Some(q4) => if be_word(data, p + 8) >= 2 {
                                            spec_string_end(data, q4)
                                        } else {
                                            Some(q4)
                                        },
                                    },
                                },
                            },
                        }
                    }
                }
            }
        },
    }
}

/// Where a `MODL` section starting with the first keyword at or after `pos`
/// ends, if one parses there: the keyword must be `MODL`, followed by two
/// unused words, the version word and two strings.
pub open spec fn spec_model_end(data: Seq<u8>, pos: int) -> Option<int> {
    match spec_first_keyword(data, pos) {
        None => None,
        Some(j) => {
            if keyword_chars_at(data, j) != seq![77u8, 79u8, 68u8, 76u8] {
                None
            } else {
                {
                    let p = keyword_end_at(data, j);
                    if p + 12 > data.len() {
                        None
                    } else {
                        match spec_string_end(data, p + 12) {
                            None => None,
                            Some(q1) => spec_string_end(data, q1),
                        }
                    }
                }
            }
        },
    }
}

/// Where a group header starting at byte `p` (just after the `CNTB` keyword)
/// ends, if one parses there: two unused words, the version word, the name
/// string, three translation words and the material word.
pub open spec fn spec_group_header_end(data: Seq<u8>, p: int) -> Option<int> {
    if p + 12 > data.len() {
        None
    } else {
        match spec_string_end(data, p + 12) {
            None => None,
            Some(q1) => if q1 + 16 > data.len() {
                None
            } else {
                Some(q1 + 16)
            },
        }
    }
}

/// How parsing a primitive section starting at byte `p` (just after the
/// `PRIM` keyword) turns out: two unused words, version and type words,
/// twelve transform words, six bounding-box words, then the type's payload.
/// An unknown type code is malformed; missing bytes truncate.
pub open spec fn spec_primitive_section_end(data: Seq<u8>, p: int) -> ParseOutcome {
    if p + 88 > data.len() {
        ParseOutcome::Truncated
    } else {
        {
            let code = be_word(data, p + 12);
            if 1 <= code <= 10 {
                if p + 88 + 4 * fixed_record_words(code as u32) > data.len() {
                    ParseOutcome::Truncated
                } else {
                    ParseOutcome::Done(p + 88 + 4 * fixed_record_words(code as u32))
                }
            } else if code == 11 {
                spec_parse_polygons_record(data, p + 88)
            } else {
                ParseOutcome::Malformed
            }
        }
    }
}

/// How the data sections parse from byte `pos` with `depth` groups open:
/// keyword by keyword, exactly as the parser reads them, with the material
/// range check that the library's own builder applies.  `END` at depth zero
/// ends the sections; inside a group it is malformed, as are an unmatched
/// group end, an unknown keyword and an out-of-range material id; a stream
/// that runs out truncates.
///
/// The guarded recursion positions (`pos + 1` where a section's end would
/// not advance or would pass the data) are never taken on a parsable
/// stream; they only keep the recursion well-founded.
#[verifier::opaque]
pub open spec fn spec_data_sections(data: Seq<u8>, pos: int, depth: nat) -> ParseOutcome
    decreases data.len() - pos,
{
    if pos + 12 > data.len() {
        ParseOutcome::Truncated
    } else {
        match spec_first_keyword(data, pos) {
            None => ParseOutcome::Truncated,
            Some(j) => {
                let c = keyword_chars_at(data, j);
                let p = keyword_end_at(data, j);
                if c == seq![69u8, 78u8, 68u8, 0u8] {
                    // END closes the data sections at depth zero only.
                    if depth == 0 {
                        ParseOutcome::Done(p)
                    } else {
                        ParseOutcome::Malformed
                    }
                } else if c == seq![67u8, 78u8, 84u8, 66u8] {
                    // CNTB opens a group.
                    match spec_group_header_end(data, p) {
                        None => ParseOutcome::Truncated,
                        Some(q) => if be_word(data, q - 4) >= 256 {
                            ParseOutcome::Malformed
                        } else if pos < q && q <= data.len() {
                            spec_data_sections(data, q, (depth + 1) as nat)
                        } else {
                            spec_data_sections(data, pos + 1, (depth + 1) as nat)
                        },
                    }
                } else if c == seq![67u8, 78u8, 84u8, 69u8] {
                    // CNTE closes the innermost group after three unused
                    // words.
                    if depth == 0 {
                        ParseOutcome::Malformed
                    } else if p + 12 > data.len() {
                        ParseOutcome::Truncated
                    } else if pos < p + 12 {
                        spec_data_sections(data, p + 12, (depth - 1) as nat)
                    } else {
                        spec_data_sections(data, pos + 1, (depth - 1) as nat)
                    }
                } else if c == seq![80u8, 82u8, 73u8, 77u8] {
                    // PRIM carries one primitive record.
                    match spec_primitive_section_end(data, p) {
                        ParseOutcome::Done(q) => if pos < q && q <= data.len() {
                            spec_data_sections(data, q, depth)
                        } else {
                            spec_data_sections(data, pos + 1, depth)
                        },
                        o => o,
                    }
                } else {
                    ParseOutcome::Malformed
                }
            },
        }
    }
}

/// How many groups the data sections open when they parse, walking the
/// same path as `spec_data_sections`.  The value is meaningful on parsable
/// streams; elsewhere the walk simply stops.
#[verifier::opaque]
pub open spec fn spec_data_group_count(data: Seq<u8>, pos: int, depth: nat) -> nat
    decreases data.len() - pos,
{
    if pos + 12 > data.len() {
        0
    } else {
        match spec_first_keyword(data, pos) {
            None => 0,
            Some(j) => {
                let c = keyword_chars_at(data, j);
                let p = keyword_end_at(data, j);
                if c == seq![69u8, 78u8, 68u8, 0u8] {
                    0
                } else if c == seq![67u8, 78u8, 84u8, 66u8] {
                    match spec_group_header_end(data, p) {
                        None => 0,
                        Some(q) => if be_word(data, q - 4) >= 256 {
                            0
                        } else if pos < q && q <= data.len() {
                            1 + spec_data_group_count(data, q, (depth + 1) as nat)
                        } else {
                            1 + spec_data_group_count(data, pos + 1, (depth + 1) as nat)
                        },
                    }
                } else if c == seq![67u8, 78u8, 84u8, 69u8] {
                    if depth == 0 {
                        0
                    } else if p + 12 > data.len() {
                        0
                    } else if pos < p + 12 {
                        spec_data_group_count(data, p + 12, (depth - 1) as nat)
                    } else {
                        spec_data_group_count(data, pos + 1, (depth - 1) as nat)
                    }
                } else if c == seq![80u8, 82u8, 73u8, 77u8] {
                    match spec_primitive_section_end(data, p) {
                        ParseOutcome::Done(q) => if pos < q && q <= data.len() {
                            spec_data_group_count(data, q, depth)
                        } else {
                            spec_data_group_count(data, pos + 1, depth)
                        },
                        _ => 0,
                    }
                } else {
                    0
                }
            },
        }
    }
}

/// The data sections truncate where no keyword is left.
proof fn lemma_data_sections_truncated(data: Seq<u8>, pos: int, depth: nat)
    requires
        spec_first_keyword(data, pos) is None,
    ensures
        spec_data_sections(data, pos, depth) == ParseOutcome::Truncated,
{
    reveal(spec_data_sections);
}

/// Unfolds the data sections at an `END` keyword.
proof fn lemma_data_sections_end(data: Seq<u8>, pos: int, depth: nat, j: int)
    requires
        spec_first_keyword(data, pos) == Some(j),
        keyword_chars_at(data, j) == seq![69u8, 78u8, 68u8, 0u8],
    ensures
        spec_data_sections(data, pos, depth) == if depth == 0 {
            ParseOutcome::Done(keyword_end_at(data, j))
        } else {
            ParseOutcome::Malformed
        },
        spec_data_group_count(data, pos, depth) == 0,
{
    reveal(spec_data_sections);
    reveal(spec_data_group_count);
}

/// Unfolds the data sections at a `CNTB` keyword.
proof fn lemma_data_sections_group(data: Seq<u8>, pos: int, depth: nat, j: int)
    requires
        spec_first_keyword(data, pos) == Some(j),
        keyword_chars_at(data, j) == seq![67u8, 78u8, 84u8, 66u8],
    ensures
        spec_group_header_end(data, keyword_end_at(data, j)) is None ==> spec_data_sections(
            data,
            pos,
            depth,
        ) == ParseOutcome::Truncated,
        spec_group_header_end(data, keyword_end_at(data, j)) matches Some(q) ==> {
            &&& be_word(data, q - 4) >= 256 ==> spec_data_sections(data, pos, depth)
                == ParseOutcome::Malformed
            &&& (be_word(data, q - 4) < 256 && pos < q && q <= data.len())
                ==> spec_data_sections(data, pos, depth) == spec_data_sections(
                data,
                q,
                (depth + 1) as nat,
            ) && spec_data_group_count(data, pos, depth) == 1 + spec_data_group_count(
                data,
                q,
                (depth + 1) as nat,
            )
        },
{
    reveal(spec_data_sections);
    reveal(spec_data_group_count);
}

/// Unfolds the data sections at a `CNTE` keyword.
proof fn lemma_data_sections_group_end(data: Seq<u8>, pos: int, depth: nat, j: int)
    requires
        spec_first_keyword(data, pos) == Some(j),
        keyword_chars_at(data, j) == seq![67u8, 78u8, 84u8, 69u8],
    ensures
        depth == 0 ==> spec_data_sections(data, pos, depth) == ParseOutcome::Malformed,
        depth > 0 && keyword_end_at(data, j) + 12 > data.len() ==> spec_data_sections(
            data,
            pos,
            depth,
        ) == ParseOutcome::Truncated,
        (depth > 0 && keyword_end_at(data, j) + 12 <= data.len() && pos < keyword_end_at(data, j)
            + 12) ==> spec_data_sections(data, pos, depth) == spec_data_sections(
            data,
            keyword_end_at(data, j) + 12,
            (depth - 1) as nat,
        ) && spec_data_group_count(data, pos, depth) == spec_data_group_count(
            data,
            keyword_end_at(data, j) + 12,
            (depth - 1) as nat,
        ),
{
    reveal(spec_data_sections);
    reveal(spec_data_group_count);
}

/// Unfolds the data sections at a `PRIM` keyword.
proof fn lemma_data_sections_primitive(data: Seq<u8>, pos: int, depth: nat, j: int)
    requires
        spec_first_keyword(data, pos) == Some(j),
        keyword_chars_at(data, j) == seq![80u8, 82u8, 73u8, 77u8],
    ensures
        !(spec_primitive_section_end(data, keyword_end_at(data, j)) is Done)
            ==> spec_data_sections(data, pos, depth) == spec_primitive_section_end(
            data,
            keyword_end_at(data, j),
        ),
        spec_primitive_section_end(data, keyword_end_at(data, j)) matches ParseOutcome::Done(q)
            ==> ((pos < q && q <= data.len()) ==> spec_data_sections(data, pos, depth)
            == spec_data_sections(data, q, depth) && spec_data_group_count(data, pos, depth)
            == spec_data_group_count(data, q, depth)),
{
    reveal(spec_data_sections);
    reveal(spec_data_group_count);
}

/// Unfolds the data sections at a keyword that cannot open one.
proof fn lemma_data_sections_unknown(data: Seq<u8>, pos: int, depth: nat, j: int)
    requires
        spec_first_keyword(data, pos) == Some(j),
        keyword_chars_at(data, j) != seq![69u8, 78u8, 68u8, 0u8],
        keyword_chars_at(data, j) != seq![67u8, 78u8, 84u8, 66u8],
        keyword_chars_at(data, j) != seq![67u8, 78u8, 84u8, 69u8],
        keyword_chars_at(data, j) != seq![80u8, 82u8, 73u8, 77u8],
    ensures
        spec_data_sections(data, pos, depth) == ParseOutcome::Malformed,
{
    reveal(spec_data_sections);
}

/// The RVM header of a file.
#[derive(Clone, Debug)]
pub struct RVMHeader {
    pub version: u32,
    pub banner: String,
    pub file_note: String,
    pub date: String,
    pub user: String,
    pub encoding: String,
}

/// The RVM model header.
#[derive(Clone, Debug)]
pub struct RVMModelHeader {
    pub version: u32,
    pub project_name: String,
    pub model_name: String,
}

/// One parse event, as recorded by an interpreter, with the decoded payload
/// it delivered.
pub enum RvmEvent {
    Header,
    Model(Seq<char>),
    BeginGroup(Seq<char>, Seq<u32>, int),
    Primitive(Primitive, Seq<u32>),
    EndGroup,
}

/// The kind of a parse event, without its payload.
pub enum RvmEventKind {
    Header,
    Model,
    BeginGroup,
    Primitive,
    EndGroup,
}

/// The kind of the given event.
pub open spec fn kind_of(e: RvmEvent) -> RvmEventKind {
    match e {
        RvmEvent::Header => RvmEventKind::Header,
        RvmEvent::Model(_) => RvmEventKind::Model,
        RvmEvent::BeginGroup(_, _, _) => RvmEventKind::BeginGroup,
        RvmEvent::Primitive(_, _) => RvmEventKind::Primitive,
        RvmEvent::EndGroup => RvmEventKind::EndGroup,
    }
}

/// How many events of the given kind the sequence holds.
pub open spec fn count_of(events: Seq<RvmEvent>, kind: RvmEventKind) -> nat
    decreases events.len(),
{
    if events.len() == 0 {
        0
    } else {
        count_of(events.drop_last(), kind) + if kind_of(events.last()) == kind {
            1nat
        } else {
            0nat
        }
    }
}

/// Appending one event raises exactly its own kind's count by one.
pub proof fn lemma_count_push(events: Seq<RvmEvent>, e: RvmEvent, kind: RvmEventKind)
    ensures
        count_of(events.push(e), kind) == count_of(events, kind) + if kind_of(e) == kind {
            1nat
        } else {
            0nat
        },
{
    assert(events.push(e).drop_last() =~= events);
    assert(events.push(e).last() == e);
}

/// How many groups an event log leaves open: the accepted model headers and
/// group begins less the accepted group ends.  The model root counts as the
/// outermost opening.
pub open spec fn spec_depth(events: Seq<RvmEvent>) -> int {
    count_of(events, RvmEventKind::Model) + count_of(events, RvmEventKind::BeginGroup) - count_of(
        events,
        RvmEventKind::EndGroup,
    )
}

/// The payload of the earliest model event in the log, or nothing where no
/// model event was accepted.
#[verifier::opaque]
pub open spec fn first_model_name(events: Seq<RvmEvent>) -> Seq<char>
    decreases events.len(),
{
    if events.len() == 0 {
        Seq::empty()
    } else if count_of(events.drop_last(), RvmEventKind::Model) > 0 {
        first_model_name(events.drop_last())
    } else {
        match events.last() {
            RvmEvent::Model(name) => name,
            _ => first_model_name(events.drop_last()),
        }
    }
}

/// Appending an event keeps the earliest model name; where none was
/// accepted yet, an appended model event becomes it.
pub proof fn lemma_first_model_name_push(events: Seq<RvmEvent>, e: RvmEvent)
    ensures
        count_of(events, RvmEventKind::Model) > 0 ==> first_model_name(events.push(e))
            == first_model_name(events),
        count_of(events, RvmEventKind::Model) == 0 ==> (e matches RvmEvent::Model(name)
            ==> first_model_name(events.push(e)) == name),
{
    reveal(first_model_name);
    assert(events.push(e).drop_last() =~= events);
    assert(events.push(e).last() == e);
}

/// The interpreter receives all parse events.  Returning an error from a
/// callback aborts the whole parse.
///
/// An interpreter abstracts its state as a well-formedness predicate, which
/// every callback preserves, and a log of the events it has accepted, which
/// every successful callback extends by exactly its own event.
pub trait RVMInterpreter {
    /// Well-formedness of the interpreter's state.
    spec fn inv(&self) -> bool;

    /// The events the interpreter has accepted so far.
    spec fn events(&self) -> Seq<RvmEvent>;

    /// Called when the RVM header has been read.  The header itself carries
    /// no structure, so it is always accepted.
    fn header(&mut self, header: RVMHeader) -> (r: Result<(), Error>)
        requires
            old(self).inv(),
        ensures
            final(self).inv(),
            r is Ok,
            final(self).events() == old(self).events().push(RvmEvent::Header),
    ;

    /// Called when the RVM model header has been read; always accepted.
    fn model(&mut self, header: RVMModelHeader) -> (r: Result<(), Error>)
        requires
            old(self).inv(),
        ensures
            final(self).inv(),
            r is Ok,
            final(self).events() == old(self).events().push(
                RvmEvent::Model(header.model_name@),
            ),
    ;

    /// Called when a new primitive has been read; always accepted.  The
    /// matrix holds the bit patterns of a 3x3 linear part followed by a
    /// translation.
    fn primitive(&mut self, primitive: Primitive, matrix: &[u32; 12]) -> (r: Result<(), Error>)
        requires
            old(self).inv(),
        ensures
            final(self).inv(),
            r is Ok,
            final(self).events() == old(self).events().push(
                RvmEvent::Primitive(primitive, matrix@),
            ),
    ;

    /// Called when a new group begins.  The translation holds the bit
    /// patterns of its three components.  Accepted exactly when a model or
    /// group is open and the material id is one of the 256 palette entries.
    fn begin_group(&mut self, group_name: String, translation: &[u32; 3], material_id: usize) -> (r:
        Result<(), Error>)
        requires
            old(self).inv(),
        ensures
            final(self).inv(),
            r is Ok <==> spec_depth(old(self).events()) >= 1 && material_id < 256,
            r is Ok ==> final(self).events() == old(self).events().push(
                RvmEvent::BeginGroup(group_name@, translation@, material_id as int),
            ),
            r is Err ==> final(self).events() == old(self).events(),
    ;

    /// Called when a group has been read completely.  Accepted exactly when
    /// a group above the model root is open.
    fn end_group(&mut self) -> (r: Result<(), Error>)
        requires
            old(self).inv(),
        ensures
            final(self).inv(),
            r is Ok <==> spec_depth(old(self).events()) >= 2,
            r is Ok ==> final(self).events() == old(self).events().push(RvmEvent::EndGroup),
            r is Err ==> final(self).events() == old(self).events(),
    ;
}

/// Whether the `HEAD` section fields are encoded at byte `p` (just after the
/// `HEAD` keyword), ending at `end`.
pub open spec fn head_encoded(
    data: Seq<u8>,
    p: int,
    version: u32,
    banner: Seq<char>,
    file_note: Seq<char>,
    date: Seq<char>,
    user: Seq<char>,
    encoding: Seq<char>,
    end: int,
) -> bool {
    // Two unused words, then the version word, then the strings.
    &&& p + 12 <= data.len()
    &&& version == be_word(data, p + 8)
    &&& spec_string_end(data, p + 12) is Some
    &&& banner == string_chars_at(data, p + 12)
    &&& {
        let q1 = spec_string_end(data, p + 12)->Some_0;
        &&& spec_string_end(data, q1) is Some
        &&& file_note == string_chars_at(data, q1)
        &&& {
            let q2 = spec_string_end(data, q1)->Some_0;
            &&& spec_string_end(data, q2) is Some
            &&& date == string_chars_at(data, q2)
            &&& {
                let q3 = spec_string_end(data, q2)->Some_0;
                &&& spec_string_end(data, q3) is Some
                &&& user == string_chars_at(data, q3)
                &&& {
                    let q4 = spec_string_end(data, q3)->Some_0;
                    if version >= 2 {
                        &&& spec_string_end(data, q4) is Some
                        &&& end == spec_string_end(data, q4)->Some_0
                        &&& (string_chars_at(data, q4) == "Unicode UTF-8"@ ==> encoding
                            == "UTF-8"@)
                        &&& (string_chars_at(data, q4) != "Unicode UTF-8"@ ==> encoding
                            == string_chars_at(data, q4))
                    } else {
                        &&& end == q4
                        &&& encoding == "UTF-8"@
                    }
                }
            }
        }
    }
}

/// Whether the `MODL` section fields are encoded at byte `p` (just after the
/// `MODL` keyword), ending at `end`.
pub open spec fn model_encoded(
    data: Seq<u8>,
    p: int,
    version: u32,
    project_name: Seq<char>,
    model_name: Seq<char>,
    end: int,
) -> bool {
    &&& p + 12 <= data.len()
    &&& version == be_word(data, p + 8)
    &&& spec_string_end(data, p + 12) is Some
    &&& project_name == string_chars_at(data, p + 12)
    &&& {
        let q1 = spec_string_end(data, p + 12)->Some_0;
        &&& spec_string_end(data, q1) is Some
        &&& model_name == string_chars_at(data, q1)
        &&& end == spec_string_end(data, q1)->Some_0
    }
}

/// The model name carried by the `MODL` section whose keyword is the first
/// at or after `pos`: its second string.  Meaningful where the section
/// parses.
pub open spec fn spec_model_name(data: Seq<u8>, pos: int) -> Seq<char> {
    match spec_first_keyword(data, pos) {
        None => Seq::empty(),
        Some(j) => {
            let p = keyword_end_at(data, j);
            match spec_string_end(data, p + 12) {
                None => Seq::empty(),
                Some(q1) => string_chars_at(data, q1),
            }
        },
    }
}

/// Whether a group header (after the `CNTB` keyword) is encoded at byte `p`,
/// ending at `end`: two unused words, a version word, the group name, three
/// translation words and a material word.
pub open spec fn group_header_encoded(
    data: Seq<u8>,
    p: int,
    name: Seq<char>,
    translation: Seq<u32>,
    material_id: int,
    end: int,
) -> bool {
    &&& p + 12 <= data.len()
    &&& spec_string_end(data, p + 12) is Some
    &&& name == string_chars_at(data, p + 12)
    &&& {
        let q1 = spec_string_end(data, p + 12)->Some_0;
        &&& q1 + 16 <= data.len()
        &&& translation.len() == 3
        &&& words_match(translation, data, q1)
        &&& material_id == be_word(data, q1 + 12)
        &&& end == q1 + 16
    }
}

/// Whether a primitive record (after the `PRIM` keyword) is encoded at byte
/// `p`, ending at `end`: two unused words, a version word, the type code,
/// twelve transform words, six bounding-box words and the type's payload.
pub open spec fn primitive_section_encoded(
    data: Seq<u8>,
    p: int,
    primitive: Primitive,
    matrix: Seq<u32>,
    end: int,
) -> bool {
    &&& p + 16 <= data.len()
    &&& matrix.len() == 12 && words_match(matrix, data, p + 16)
    &&& primitive_record_decoded(data, p + 16 + 72, be_word(data, p + 12) as u32, primitive, end)
}

/// The RVM parser reads the byte stream and delegates all events to an
/// interpreter.
pub struct RVMParser {
    /// The reader from which the parser reads the input.
    reader: ByteReader,
}

impl RVMParser {
    /// The bytes the parser reads.
    pub closed spec fn spec_data(&self) -> Seq<u8> {
        self.reader.spec_data()
    }

    /// The parser's current position in the bytes.
    pub closed spec fn spec_pos(&self) -> int {
        self.reader.spec_pos()
    }

    /// Returns a new parser over the given input bytes.  All read events are
    /// delegated to the interpreter handed to `parse`.
    pub fn new(data: Vec<u8>) -> (r: Self)
        ensures
            r.spec_data() == data@,
            r.spec_pos() == 0,
    {
        Self { reader: ByteReader::new(data) }
    }

    /// Parses the content: the header, the model header, and the group and
    /// primitive sections, which may nest.  Each decoded section is handed to
    /// the interpreter; the first malformed section, the end of the stream
    /// before the closing keyword, or a callback error aborts the parse.
    ///
    /// On success the interpreter accepted exactly one header, one model
    /// header and then data events whose group begins and ends balance.
    pub fn parse<I: RVMInterpreter>(&mut self, interpreter: &mut I) -> (res: Result<(), Error>)
        requires
            old(interpreter).inv(),
            spec_depth(old(interpreter).events()) >= 0,
        ensures
            final(self).spec_data() == old(self).spec_data(),
            final(interpreter).inv(),
            res is Ok ==> {
                let ev0 = old(interpreter).events();
                let ev = final(interpreter).events();
                &&& count_of(ev, RvmEventKind::Header) == count_of(ev0, RvmEventKind::Header) + 1
                &&& count_of(ev, RvmEventKind::Model) == count_of(ev0, RvmEventKind::Model) + 1
                &&& count_of(ev, RvmEventKind::BeginGroup) - count_of(
                    ev0,
                    RvmEventKind::BeginGroup,
                ) == count_of(ev, RvmEventKind::EndGroup) - count_of(ev0, RvmEventKind::EndGroup)
            },
            res is Ok <==> ({
                let data = old(self).spec_data();
                let hm = spec_head_end(data, old(self).spec_pos());
                &&& hm is Some
                &&& spec_model_end(data, hm->Some_0) is Some
                &&& spec_data_sections(data, spec_model_end(data, hm->Some_0)->Some_0, 0)
                    is Done
            }),
            res is Ok ==> count_of(final(interpreter).events(), RvmEventKind::BeginGroup)
                - count_of(old(interpreter).events(), RvmEventKind::BeginGroup)
                == spec_data_group_count(
                old(self).spec_data(),
                spec_model_end(
                    old(self).spec_data(),
                    spec_head_end(old(self).spec_data(), old(self).spec_pos())->Some_0,
                )->Some_0,
                0,
            ),
            (res is Ok && count_of(old(interpreter).events(), RvmEventKind::Model) == 0)
                ==> first_model_name(final(interpreter).events()) == spec_model_name(
                old(self).spec_data(),
                spec_head_end(old(self).spec_data(), old(self).spec_pos())->Some_0,
            ),
            // Success is owed on a stream whose data section opens with END:
            // the interpreter decides nothing there, since the header and
            // model callbacks always accept.
            ({
                let data = old(self).spec_data();
                let hm = spec_head_end(data, old(self).spec_pos());
                &&& hm is Some
                &&& spec_model_end(data, hm->Some_0) is Some
                &&& ({
                    let fk = spec_first_keyword(data, spec_model_end(data, hm->Some_0)->Some_0);
                    fk matches Some(j) && keyword_chars_at(data, j) == seq![
                        69u8,
                        78u8,
                        68u8,
                        0u8,
                    ]
                })
            }) ==> res is Ok,
    {
        let ghost data = old(self).spec_data();
        let ghost pos0 = old(self).spec_pos();
        let ghost ev0 = old(interpreter).events();
        let header = match self.read_head() {
            Ok(header) => header,
            Err(e) => {
                return Err(e);
            },
        };
        match interpreter.header(header) {
            Ok(()) => {},
            Err(e) => {
                return Err(e);
            },
        }
        proof {
            lemma_count_push(ev0, RvmEvent::Header, RvmEventKind::Header);
            lemma_count_push(ev0, RvmEvent::Header, RvmEventKind::Model);
            lemma_count_push(ev0, RvmEvent::Header, RvmEventKind::BeginGroup);
            lemma_count_push(ev0, RvmEvent::Header, RvmEventKind::EndGroup);
            lemma_first_model_name_push(ev0, RvmEvent::Header);
        }
        let ghost ev1 = interpreter.events();
        let model_header = match self.read_model() {
            Ok(model_header) => model_header,
            Err(e) => {
                return Err(e);
            },
        };
        let ghost mname = model_header.model_name@;
        match interpreter.model(model_header) {
            Ok(()) => {},
            Err(e) => {
                return Err(e);
            },
        }
        proof {
            lemma_count_push(ev1, RvmEvent::Model(mname), RvmEventKind::Header);
            lemma_count_push(ev1, RvmEvent::Model(mname), RvmEventKind::Model);
            lemma_count_push(ev1, RvmEvent::Model(mname), RvmEventKind::BeginGroup);
            lemma_count_push(ev1, RvmEvent::Model(mname), RvmEventKind::EndGroup);
            lemma_first_model_name_push(ev1, RvmEvent::Model(mname));
            assert(spec_depth(interpreter.events()) == spec_depth(ev0) + 1);
        }
        self.read_data(interpreter)
    }

    /// Reads the `HEAD` section: scans to the first keyword, which must be
    /// `HEAD`, and decodes the version and the header strings.
    pub fn read_head(&mut self) -> (res: Result<RVMHeader, Error>)
        ensures
            final(self).spec_data() == old(self).spec_data(),
            res is Ok <==> spec_head_end(old(self).spec_data(), old(self).spec_pos()) is Some,
            res is Ok ==> Some(final(self).spec_pos()) == spec_head_end(
                old(self).spec_data(),
                old(self).spec_pos(),
            ),
            res matches Err(e) ==> ({
                let fk = spec_first_keyword(old(self).spec_data(), old(self).spec_pos());
                &&& (e.is_io() || e.is_invalid_format())
                &&& (e.is_invalid_format() <==> (fk matches Some(j) && keyword_chars_at(
                    old(self).spec_data(),
                    j,
                ) != seq![72u8, 69u8, 65u8, 68u8]))
            }),
            ({
                let data = old(self).spec_data();
                match res {
                    Ok(h) => exists|j: int|
                        {
                            &&& old(self).spec_pos() <= j
                            &&& #[trigger] keyword_at(data, j)
                            &&& forall|k: int|
                                old(self).spec_pos() <= k < j ==> !keyword_at(data, k)
                            &&& keyword_chars_at(data, j) == seq![72u8, 69u8, 65u8, 68u8]
                            &&& head_encoded(
                                data,
                                keyword_end_at(data, j),
                                h.version,
                                h.banner@,
                                h.file_note@,
                                h.date@,
                                h.user@,
                                h.encoding@,
                                final(self).spec_pos(),
                            )
                        },
                    Err(e) => e.is_io() || e.is_invalid_format(),
                }
            }),
    {
        let ghost data = old(self).spec_data();
        let ghost start = old(self).spec_pos();
        let identifier = match self.read_until_valid_identifier() {
            Ok(id) => id,
            Err(e) => {
                proof {
                    assert(spec_head_end(data, start) is None);
                }
                return Err(e);
            },
        };
        let ghost j = spec_first_keyword(data, start)->Some_0;
        if !identifier.equals_chars(72, 69, 65, 68) {
            proof {
                assert(keyword_chars_at(data, j) != seq![72u8, 69u8, 65u8, 68u8]);
                assert(spec_head_end(data, start) is None);
            }
            return Err(Error::InvalidFormat("file header not found".to_owned()));
        }
        proof {
            assert(keyword_chars_at(data, j) =~= seq![72u8, 69u8, 65u8, 68u8]);
        }
        let ghost p = keyword_end_at(data, j);
        match self.skip_words_io(2) {
            Ok(()) => {},
            Err(e) => {
                proof {
                    assert(spec_head_end(data, start) is None);
                }
                return Err(e);
            },
        }
        let version = match self.read_u32_io() {
            Ok(w) => w,
            Err(e) => {
                proof {
                    assert(spec_head_end(data, start) is None);
                }
                return Err(e);
            },
        };
        let banner = match self.read_string() {
            Ok(v) => v,
            Err(e) => {
                proof {
                    assert(spec_head_end(data, start) is None);
                }
                return Err(e);
            },
        };
        let file_note = match self.read_string() {
            Ok(v) => v,
            Err(e) => {
                proof {
                    assert(spec_head_end(data, start) is None);
                }
                return Err(e);
            },
        };
        let date = match self.read_string() {
            Ok(v) => v,
            Err(e) => {
                proof {
                    assert(spec_head_end(data, start) is None);
                }
                return Err(e);
            },
        };
        let user = match self.read_string() {
            Ok(v) => v,
            Err(e) => {
                proof {
                    assert(spec_head_end(data, start) is None);
                }
                return Err(e);
            },
        };
        let encoding = if version >= 2 {
            let e = match self.read_string() {
                Ok(v) => v,
                Err(err) => {
                    proof {
                        assert(spec_head_end(data, start) is None);
                    }
                    return Err(err);
                },
            };
            if str_eq(e.as_str(), "Unicode UTF-8") {
                "UTF-8".to_owned()
            } else {
                e
            }
        } else {
            "UTF-8".to_owned()
        };
        proof {
            assert(spec_head_end(data, start) == Some(self.spec_pos()));
        }
        Ok(RVMHeader { version, banner, file_note, date, user, encoding })
    }

    /// Reads the `MODL` section: scans to the next keyword, which must be
    /// `MODL`, and decodes the version, project name and model name.
    pub fn read_model(&mut self) -> (res: Result<RVMModelHeader, Error>)
        ensures
            final(self).spec_data() == old(self).spec_data(),
            res is Ok <==> spec_model_end(old(self).spec_data(), old(self).spec_pos()) is Some,
            res is Ok ==> Some(final(self).spec_pos()) == spec_model_end(
                old(self).spec_data(),
                old(self).spec_pos(),
            ),
            res matches Ok(h) ==> h.model_name@ == spec_model_name(
                old(self).spec_data(),
                old(self).spec_pos(),
            ),
            res matches Err(e) ==> ({
                let fk = spec_first_keyword(old(self).spec_data(), old(self).spec_pos());
                &&& (e.is_io() || e.is_invalid_format())
                &&& (e.is_invalid_format() <==> (fk matches Some(j) && keyword_chars_at(
                    old(self).spec_data(),
                    j,
                ) != seq![77u8, 79u8, 68u8, 76u8]))
            }),
            ({
                let data = old(self).spec_data();
                match res {
                    Ok(h) => exists|j: int|
                        {
                            &&& old(self).spec_pos() <= j
                            &&& #[trigger] keyword_at(data, j)
                            &&& forall|k: int|
                                old(self).spec_pos() <= k < j ==> !keyword_at(data, k)
                            &&& keyword_chars_at(data, j) == seq![77u8, 79u8, 68u8, 76u8]
                            &&& model_encoded(
                                data,
                                keyword_end_at(data, j),
                                h.version,
                                h.project_name@,
                                h.model_name@,
                                final(self).spec_pos(),
                            )
                        },
                    Err(e) => e.is_io() || e.is_invalid_format(),
                }
            }),
    {
        let ghost data = old(self).spec_data();
        let ghost start = old(self).spec_pos();
        let identifier = match self.read_until_valid_identifier() {
            Ok(id) => id,
            Err(e) => {
                proof {
                    assert(spec_model_end(data, start) is None);
                }
                return Err(e);
            },
        };
        let ghost j = spec_first_keyword(data, start)->Some_0;
        if !identifier.equals_chars(77, 79, 68, 76) {
            proof {
                assert(keyword_chars_at(data, j) != seq![77u8, 79u8, 68u8, 76u8]);
                assert(spec_model_end(data, start) is None);
            }
            return Err(Error::InvalidFormat("model not found".to_owned()));
        }
        proof {
            assert(keyword_chars_at(data, j) =~= seq![77u8, 79u8, 68u8, 76u8]);
        }
        match self.skip_words_io(2) {
            Ok(()) => {},
            Err(e) => {
                proof {
                    assert(spec_model_end(data, start) is None);
                }
                return Err(e);
            },
        }
        let version = match self.read_u32_io() {
            Ok(w) => w,
            Err(e) => {
                proof {
                    assert(spec_model_end(data, start) is None);
                }
                return Err(e);
            },
        };
        let project_name = match self.read_string() {
            Ok(v) => v,
            Err(e) => {
                proof {
                    assert(spec_model_end(data, start) is None);
                }
                return Err(e);
            },
        };
        let model_name = match self.read_string() {
            Ok(v) => v,
            Err(e) => {
                proof {
                    assert(spec_model_end(data, start) is None);
                }
                return Err(e);
            },
        };
        proof {
            assert(spec_model_end(data, start) == Some(self.spec_pos()));
        }
        Ok(RVMModelHeader { version, project_name, model_name })
    }

    /// Reads the data sections: a sequence of possibly nested `CNTB`/`CNTE`
    /// groups and `PRIM` primitives, terminated by `END` at nesting depth
    /// zero.  Group nesting is tracked with an explicit depth counter, so a
    /// group closed at depth zero and a stream ending inside a group are both
    /// format errors.
    #[verifier::rlimit(100)]
    pub fn read_data<I: RVMInterpreter>(&mut self, interpreter: &mut I) -> (res: Result<(), Error>)
        requires
            old(interpreter).inv(),
            spec_depth(old(interpreter).events()) >= 1,
        ensures
            final(self).spec_data() == old(self).spec_data(),
            final(interpreter).inv(),
            res is Ok <==> spec_data_sections(old(self).spec_data(), old(self).spec_pos(), 0)
                is Done,
            res is Ok ==> ParseOutcome::Done(final(self).spec_pos()) == spec_data_sections(
                old(self).spec_data(),
                old(self).spec_pos(),
                0,
            ),
            res is Ok ==> count_of(final(interpreter).events(), RvmEventKind::BeginGroup)
                - count_of(old(interpreter).events(), RvmEventKind::BeginGroup)
                == spec_data_group_count(old(self).spec_data(), old(self).spec_pos(), 0),
            final(interpreter).events().len() >= old(interpreter).events().len(),
            count_of(final(interpreter).events(), RvmEventKind::Header) == count_of(
                old(interpreter).events(),
                RvmEventKind::Header,
            ),
            count_of(final(interpreter).events(), RvmEventKind::Model) == count_of(
                old(interpreter).events(),
                RvmEventKind::Model,
            ),
            count_of(old(interpreter).events(), RvmEventKind::Model) > 0 ==> first_model_name(
                final(interpreter).events(),
            ) == first_model_name(old(interpreter).events()),
            res is Ok ==> count_of(final(interpreter).events(), RvmEventKind::BeginGroup)
                - count_of(old(interpreter).events(), RvmEventKind::BeginGroup) == count_of(
                final(interpreter).events(),
                RvmEventKind::EndGroup,
            ) - count_of(old(interpreter).events(), RvmEventKind::EndGroup),
            // An empty data section is accepted: when the first keyword is
            // END, it is consumed, nothing follows it, and no event is
            // emitted.
            ({
                let fk = spec_first_keyword(old(self).spec_data(), old(self).spec_pos());
                fk matches Some(j) && keyword_chars_at(old(self).spec_data(), j) == seq![
                    69u8,
                    78u8,
                    68u8,
                    0u8,
                ]
            }) ==> res is Ok && final(interpreter).events() == old(interpreter).events() && final(
                self
            ).spec_pos() == keyword_end_at(
                old(self).spec_data(),
                spec_first_keyword(old(self).spec_data(), old(self).spec_pos())->Some_0,
            ),
            // A stream that ends before any keyword is an I/O error.
            spec_first_keyword(old(self).spec_data(), old(self).spec_pos()) is None ==> (res
                matches Err(e) && e.is_io() && final(interpreter).events() == old(
                interpreter,
            ).events()),
            // A keyword that cannot open a data section is a format error.
            ({
                let fk = spec_first_keyword(old(self).spec_data(), old(self).spec_pos());
                fk matches Some(j) && ({
                    let c = keyword_chars_at(old(self).spec_data(), j);
                    ||| c == seq![72u8, 69u8, 65u8, 68u8]
                    ||| c == seq![77u8, 79u8, 68u8, 76u8]
                    ||| c == seq![67u8, 79u8, 76u8, 82u8]
                    ||| c == seq![67u8, 78u8, 84u8, 69u8]
                })
            }) ==> (res matches Err(e) && e.is_invalid_format() && final(interpreter).events()
                == old(interpreter).events()),
    {
        let ghost data = old(self).spec_data();
        let ghost pos0 = old(self).spec_pos();
        let ghost ev0 = old(interpreter).events();
        // Reading the position brings its bound into scope for the loop.
        let _entry_position = self.reader.position();
        let mut depth: usize = 0;
        let ghost mut started = false;
        loop
            invariant
                data == old(self).spec_data(),
                pos0 == old(self).spec_pos(),
                0 <= pos0,
                ev0 == old(interpreter).events(),
                spec_depth(ev0) >= 1,
                self.spec_data() == data,
                self.spec_pos() <= self.spec_data().len(),
                interpreter.inv(),
                interpreter.events().len() >= ev0.len(),
                count_of(interpreter.events(), RvmEventKind::Header) == count_of(
                    ev0,
                    RvmEventKind::Header,
                ),
                count_of(interpreter.events(), RvmEventKind::Model) == count_of(
                    ev0,
                    RvmEventKind::Model,
                ),
                count_of(ev0, RvmEventKind::Model) > 0 ==> first_model_name(interpreter.events())
                    == first_model_name(ev0),
                spec_depth(interpreter.events()) == spec_depth(ev0) + depth,
                count_of(interpreter.events(), RvmEventKind::EndGroup) >= count_of(
                    ev0,
                    RvmEventKind::EndGroup,
                ),
                count_of(interpreter.events(), RvmEventKind::BeginGroup) >= count_of(
                    ev0,
                    RvmEventKind::BeginGroup,
                ),
                !started ==> self.spec_pos() == pos0 && depth == 0 && interpreter.events() == ev0,
                started ==> (spec_first_keyword(data, pos0) matches Some(j) && ({
                    let c = keyword_chars_at(data, j);
                    c == seq![67u8, 78u8, 84u8, 66u8] || c == seq![80u8, 82u8, 73u8, 77u8]
                })),
                spec_data_sections(data, pos0, 0) == spec_data_sections(
                    data,
                    self.spec_pos(),
                    depth as nat,
                ),
                count_of(interpreter.events(), RvmEventKind::BeginGroup) - count_of(
                    ev0,
                    RvmEventKind::BeginGroup,
                ) + spec_data_group_count(data, self.spec_pos(), depth as nat)
                    == spec_data_group_count(data, pos0, 0),
                16 * depth <= self.spec_pos() - pos0,
            decreases self.spec_data().len() - self.spec_pos(),
        {
            let ghost cur = self.spec_pos();
            // Reading the position also bounds it by the machine word.
            let _current_position = self.reader.position();
            let id = match self.read_until_valid_identifier() {
                Ok(id) => id,
                Err(e) => {
                    proof {
                        lemma_data_sections_truncated(data, cur, depth as nat);
                    }
                    return Err(e);
                },
            };
            let ghost jk = spec_first_keyword(data, cur)->Some_0;
            let ghost kwp = keyword_end_at(data, jk);
            proof {
                assert(self.spec_pos() == kwp);
            }
            if id.equals_chars(69, 78, 68, 0) {
                // END terminates the data sections; inside a group it is a
                // format error.
                proof {
                    assert(keyword_chars_at(data, jk) =~= seq![69u8, 78u8, 68u8, 0u8]);
                    lemma_data_sections_end(data, cur, depth as nat, jk);
                }
                if depth == 0 {
                    return Ok(());
                }
                return Err(Error::InvalidFormat("stream ended inside an open group".to_owned()));
            } else if id.equals_chars(67, 78, 84, 66) {
                // CNTB: a group begins.
                proof {
                    assert(keyword_chars_at(data, jk) =~= seq![67u8, 78u8, 84u8, 66u8]);
                    assert(!end_keyword_at(data, jk));
                    assert(kwp == jk + 16);
                    lemma_data_sections_group(data, cur, depth as nat, jk);
                }
                if depth == usize::MAX {
                    // Unreachable: every open group consumed at least 16
                    // bytes, so the depth stays far below the position.
                    proof {
                        assert(16 * (usize::MAX as int) <= cur - pos0);
                        assert(cur <= usize::MAX);
                        assert(false);
                    }
                    return Err(Error::InvalidFormat("group nesting too deep".to_owned()));
                }
                let (group_name, translation, material_id) = match self.read_group_header() {
                    Ok(g) => g,
                    Err(e) => {
                        return Err(e);
                    },
                };
                let ghost q = self.spec_pos();
                proof {
                    assert(spec_group_header_end(data, kwp) == Some(q));
                    assert(material_id as int == be_word(data, q - 4));
                    assert(q <= data.len());
                    assert(cur < q);
                }
                let ghost pushed = RvmEvent::BeginGroup(
                    group_name@,
                    translation@,
                    material_id as int,
                );
                let ghost ev_before = interpreter.events();
                match interpreter.begin_group(group_name, &translation, material_id) {
                    Ok(()) => {},
                    Err(e) => {
                        proof {
                            assert(spec_depth(ev_before) >= 1);
                            assert(material_id >= 256);
                        }
                        return Err(e);
                    },
                }
                proof {
                    lemma_count_push(ev_before, pushed, RvmEventKind::Header);
                    lemma_count_push(ev_before, pushed, RvmEventKind::Model);
                    lemma_count_push(ev_before, pushed, RvmEventKind::BeginGroup);
                    lemma_count_push(ev_before, pushed, RvmEventKind::EndGroup);
                    lemma_first_model_name_push(ev_before, pushed);
                    started = true;
                }
                depth = depth + 1;
            } else if id.equals_chars(67, 78, 84, 69) {
                // CNTE: the current group ends.
                proof {
                    assert(keyword_chars_at(data, jk) =~= seq![67u8, 78u8, 84u8, 69u8]);
                    assert(!end_keyword_at(data, jk));
                    assert(kwp == jk + 16);
                    lemma_data_sections_group_end(data, cur, depth as nat, jk);
                }
                if depth == 0 {
                    return Err(
                        Error::InvalidFormat("group end without a matching begin".to_owned()),
                    );
                }
                match self.skip_words_io(3) {
                    Ok(()) => {},
                    Err(e) => {
                        return Err(e);
                    },
                }
                let ghost ev_before = interpreter.events();
                match interpreter.end_group() {
                    Ok(()) => {},
                    Err(e) => {
                        proof {
                            assert(spec_depth(ev_before) >= 2);
                            assert(false);
                        }
                        return Err(e);
                    },
                }
                proof {
                    lemma_count_push(ev_before, RvmEvent::EndGroup, RvmEventKind::Header);
                    lemma_count_push(ev_before, RvmEvent::EndGroup, RvmEventKind::Model);
                    lemma_count_push(ev_before, RvmEvent::EndGroup, RvmEventKind::BeginGroup);
                    lemma_count_push(ev_before, RvmEvent::EndGroup, RvmEventKind::EndGroup);
                    lemma_first_model_name_push(ev_before, RvmEvent::EndGroup);
                }
                depth = depth - 1;
            } else if id.equals_chars(80, 82, 73, 77) {
                // PRIM: a primitive record.
                proof {
                    assert(keyword_chars_at(data, jk) =~= seq![80u8, 82u8, 73u8, 77u8]);
                    assert(!end_keyword_at(data, jk));
                    assert(kwp == jk + 16);
                    lemma_data_sections_primitive(data, cur, depth as nat, jk);
                }
                let (primitive, matrix) = match self.read_primitive() {
                    Ok(p) => p,
                    Err(e) => {
                        return Err(e);
                    },
                };
                let ghost q = self.spec_pos();
                proof {
                    assert(spec_primitive_section_end(data, kwp) == ParseOutcome::Done(q));
                    if be_word(data, kwp + 12) == 11 {
                        crate::loader::loader_rvm::primitive::lemma_polygons_record_done_bounds(
                            data,
                            kwp + 88,
                        );
                    }
                    assert(cur < q && q <= data.len());
                }
                let ghost pushed = RvmEvent::Primitive(primitive, matrix@);
                let ghost ev_before = interpreter.events();
                match interpreter.primitive(primitive, &matrix) {
                    Ok(()) => {},
                    Err(e) => {
                        proof {
                            assert(false);
                        }
                        return Err(e);
                    },
                }
                proof {
                    lemma_count_push(ev_before, pushed, RvmEventKind::Header);
                    lemma_count_push(ev_before, pushed, RvmEventKind::Model);
                    lemma_count_push(ev_before, pushed, RvmEventKind::BeginGroup);
                    lemma_count_push(ev_before, pushed, RvmEventKind::EndGroup);
                    lemma_first_model_name_push(ev_before, pushed);
                    started = true;
                }
            } else {
                proof {
                    lemma_data_sections_unknown(data, cur, depth as nat, jk);
                }
                return Err(
                    Error::InvalidFormat("unknown or invalid identifier found".to_owned()),
                );
            }
            // Re-establish the position bound for the next iteration.
            let _position_check = self.reader.position();
        }
    }

    /// Reads a group header, after the `CNTB` keyword: the group name, the
    /// translation words and the material id.
    pub fn read_group_header(&mut self) -> (res: Result<(String, [u32; 3], usize), Error>)
        ensures
            final(self).spec_data() == old(self).spec_data(),
            final(self).spec_pos() >= old(self).spec_pos(),
            res is Ok <==> spec_group_header_end(old(self).spec_data(), old(self).spec_pos())
                is Some,
            res is Ok ==> Some(final(self).spec_pos()) == spec_group_header_end(
                old(self).spec_data(),
                old(self).spec_pos(),
            ),
            match res {
                Ok((name, translation, material_id)) => group_header_encoded(
                    old(self).spec_data(),
                    old(self).spec_pos(),
                    name@,
                    translation@,
                    material_id as int,
                    final(self).spec_pos(),
                ),
                Err(e) => e.is_io(),
            },
    {
        let ghost data = old(self).spec_data();
        let ghost start = old(self).spec_pos();
        match self.skip_words_io(2) {
            Ok(()) => {},
            Err(e) => {
                proof {
                    assert(spec_group_header_end(data, start) is None);
                }
                return Err(e);
            },
        }
        let _version = match self.read_u32_io() {
            Ok(w) => w,
            Err(e) => {
                proof {
                    assert(spec_group_header_end(data, start) is None);
                }
                return Err(e);
            },
        };
        let group_name = match self.read_string() {
            Ok(v) => v,
            Err(e) => {
                proof {
                    assert(spec_group_header_end(data, start) is None);
                }
                return Err(e);
            },
        };
        let ws = match self.reader.read_words(3) {
            Ok(ws) => ws,
            Err(e) => {
                proof {
                    assert(spec_group_header_end(data, start) is None);
                }
                return Err(e);
            },
        };
        let translation: [u32; 3] = [ws[0], ws[1], ws[2]];
        let material_id = match self.read_u32_io() {
            Ok(w) => w as usize,
            Err(e) => {
                proof {
                    assert(spec_group_header_end(data, start) is None);
                }
                return Err(e);
            },
        };
        proof {
            assert(translation@ =~= ws@);
            assert(spec_group_header_end(data, start) == Some(self.spec_pos()));
        }
        Ok((group_name, translation, material_id))
    }

    /// Reads a primitive record, after the `PRIM` keyword: the version and
    /// type words, the transform words, the bounding box (skipped) and the
    /// type-specific payload.
    pub fn read_primitive(&mut self) -> (res: Result<(Primitive, [u32; 12]), Error>)
        ensures
            final(self).spec_data() == old(self).spec_data(),
            final(self).spec_pos() >= old(self).spec_pos(),
            res is Ok <==> spec_primitive_section_end(old(self).spec_data(), old(self).spec_pos())
                is Done,
            res is Ok ==> ParseOutcome::Done(final(self).spec_pos())
                == spec_primitive_section_end(old(self).spec_data(), old(self).spec_pos()),
            res matches Err(e) ==> ({
                &&& (e.is_io() <==> spec_primitive_section_end(
                    old(self).spec_data(),
                    old(self).spec_pos(),
                ) is Truncated)
                &&& (e.is_invalid_format() <==> spec_primitive_section_end(
                    old(self).spec_data(),
                    old(self).spec_pos(),
                ) is Malformed)
            }),
            match res {
                Ok((primitive, matrix)) => primitive_section_encoded(
                    old(self).spec_data(),
                    old(self).spec_pos(),
                    primitive,
                    matrix@,
                    final(self).spec_pos(),
                ),
                Err(e) => e.is_io() || e.is_invalid_format(),
            },
    {
        let ghost data = old(self).spec_data();
        let ghost start = old(self).spec_pos();
        match self.skip_words_io(2) {
            Ok(()) => {},
            Err(e) => {
                proof {
                    assert(spec_primitive_section_end(data, start) is Truncated);
                }
                return Err(e);
            },
        }
        let _version = match self.read_u32_io() {
            Ok(w) => w,
            Err(e) => {
                proof {
                    assert(spec_primitive_section_end(data, start) is Truncated);
                }
                return Err(e);
            },
        };
        let primitive_type = match self.read_u32_io() {
            Ok(w) => w,
            Err(e) => {
                proof {
                    assert(spec_primitive_section_end(data, start) is Truncated);
                }
                return Err(e);
            },
        };
        let ws = match self.reader.read_words(12) {
            Ok(ws) => ws,
            Err(e) => {
                proof {
                    assert(spec_primitive_section_end(data, start) is Truncated);
                }
                return Err(e);
            },
        };
        let matrix: [u32; 12] = [
            ws[0],
            ws[1],
            ws[2],
            ws[3],
            ws[4],
            ws[5],
            ws[6],
            ws[7],
            ws[8],
            ws[9],
            ws[10],
            ws[11],
        ];
        proof {
            assert(matrix@ =~= ws@);
        }
        // Skip the bounding box.
        match self.skip_words_io(6) {
            Ok(()) => {},
            Err(e) => {
                proof {
                    assert(spec_primitive_section_end(data, start) is Truncated);
                }
                return Err(e);
            },
        }
        let primitive = match Primitive::from_reader(&mut self.reader, primitive_type) {
            Ok(p) => p,
            Err(e) => {
                proof {
                    assert(primitive_type == be_word(data, start + 12));
                    if 1 <= primitive_type <= 10 {
                        assert(spec_primitive_section_end(data, start) is Truncated);
                    } else if primitive_type == 11 {
                        assert(spec_primitive_section_end(data, start)
                            == spec_parse_polygons_record(data, start + 88));
                    } else {
                        assert(spec_primitive_section_end(data, start) is Malformed);
                    }
                }
                return Err(e);
            },
        };
        proof {
            assert(primitive_type == be_word(data, start + 12));
            assert(spec_primitive_section_end(data, start) == ParseOutcome::Done(self.spec_pos()));
        }
        Ok((primitive, matrix))
    }

    /// Reads a length-prefixed string: a word count, then four bytes per
    /// word, trimmed at the first zero byte and decoded leniently from UTF-8.
    pub fn read_string(&mut self) -> (res: Result<String, Error>)
        ensures
            final(self).spec_data() == old(self).spec_data(),
            res is Ok <==> spec_string_end(old(self).spec_data(), old(self).spec_pos()) is Some,
            match res {
                Ok(s) => {
                    &&& Some(final(self).spec_pos()) == spec_string_end(
                        old(self).spec_data(),
                        old(self).spec_pos(),
                    )
                    &&& s@ == string_chars_at(old(self).spec_data(), old(self).spec_pos())
                    &&& valid_utf8(
                        trim_nul(string_bytes_at(old(self).spec_data(), old(self).spec_pos())),
                    ) ==> s@ == decode_utf8(
                        trim_nul(string_bytes_at(old(self).spec_data(), old(self).spec_pos())),
                    )
                    &&& be_word(old(self).spec_data(), old(self).spec_pos()) == 0 ==> s@
                        == Seq::<char>::empty()
                },
                Err(e) => e.is_io() && final(self).spec_pos() == old(self).spec_pos(),
            },
    {
        let ghost data = old(self).spec_data();
        let ghost j = old(self).spec_pos();
        let stream_len = self.reader.len();
        let count = self.read_u32_io()?;
        if count as u64 > usize::MAX as u64 / 4 {
            // The byte count is not addressable, so the stream cannot hold
            // the string either; rewind past the count word and fail.
            proof {
                assert(count as int > usize::MAX as int / 4);
                assert(4 * (count as int) > usize::MAX as int);
                assert(data.len() <= usize::MAX);
                assert(j + 4 + 4 * be_word(data, j) > data.len());
                assert(spec_string_end(data, j) is None);
            }
            let p = self.reader.position();
            proof {
                assert(p >= 4);
            }
            self.reader.set_position(p - 4);
            return Err(Error::IO("unexpected end of stream".to_owned()));
        }
        let size = (count as usize) * 4;
        let bytes = match self.reader.read_bytes(size) {
            Ok(b) => b,
            Err(e) => {
                // Nothing before the count word changed, but the count word
                // itself was consumed; rewind so that nothing is consumed.
                let p = self.reader.position();
                self.reader.set_position(p - 4);
                return Err(e);
            },
        };
        let mut trimmed: Vec<u8> = Vec::new();
        let mut i: usize = 0;
        proof {
            lemma_trimmed_len(bytes@);
        }
        while i < bytes.len() && bytes[i] != 0
            invariant
                0 <= i <= bytes@.len(),
                forall|k: int| 0 <= k < i ==> bytes@[k] != 0,
                trimmed@ =~= bytes@.take(i as int),
            decreases bytes@.len() - i,
        {
            trimmed.push(bytes[i]);
            proof {
                assert(trimmed@ =~= bytes@.take(i + 1));
            }
            i = i + 1;
        }
        proof {
            lemma_trimmed_len(bytes@);
            if i < bytes@.len() {
                assert(bytes@[i as int] == 0);
            }
            assert(i == trimmed_len(bytes@)) by {
                if i < trimmed_len(bytes@) {
                    assert(bytes@[i as int] != 0);
                } else if trimmed_len(bytes@) < i {
                    assert(bytes@[trimmed_len(bytes@)] != 0);
                }
            }
            assert(bytes@ =~= string_bytes_at(data, j));
        }
        let s = bytes_to_string_lossy(&trimmed);
        proof {
            if be_word(data, j) == 0 {
                assert(trimmed@ =~= Seq::<u8>::empty());
                assert(valid_utf8(trimmed@));
                assert(s@ =~= Seq::<char>::empty());
            }
        }
        Ok(s)
    }

    /// Reads until either a valid keyword has been found or the stream ends.
    /// The idea is to be able to jump over unknown blocks.
    fn read_until_valid_identifier(&mut self) -> (res: Result<Identifier, Error>)
        ensures
            final(self).spec_data() == old(self).spec_data(),
            final(self).spec_pos() >= old(self).spec_pos(),
            final(self).spec_pos() <= final(self).spec_data().len(),
            res is Err ==> final(self).spec_pos() == old(self).spec_pos(),
            res is Ok <==> spec_first_keyword(old(self).spec_data(), old(self).spec_pos())
                is Some,
            res matches Ok(id) ==> ({
                let j = spec_first_keyword(old(self).spec_data(), old(self).spec_pos())->Some_0;
                &&& id.spec_chars() == keyword_chars_at(old(self).spec_data(), j)
                &&& final(self).spec_pos() == keyword_end_at(old(self).spec_data(), j)
            }),
            match res {
                Ok(id) => final(self).spec_pos() >= old(self).spec_pos() + 12 && exists|j: int|
                    {
                        &&& old(self).spec_pos() <= j
                        &&& #[trigger] keyword_at(old(self).spec_data(), j)
                        &&& forall|k: int|
                            old(self).spec_pos() <= k < j ==> !keyword_at(old(self).spec_data(), k)
                        &&& id.spec_chars() == keyword_chars_at(old(self).spec_data(), j)
                        &&& final(self).spec_pos() == keyword_end_at(old(self).spec_data(), j)
                    },
                Err(e) => e.is_io(),
            },
    {
        let identifier_reader = IdentifierReader::new();
        let res = identifier_reader.read(&mut self.reader);
        proof {
            if res is Ok {
                let j = choose|j: int|
                    {
                        &&& old(self).spec_pos() <= j
                        &&& #[trigger] keyword_at(old(self).spec_data(), j)
                        &&& forall|k: int|
                            old(self).spec_pos() <= k < j ==> !keyword_at(old(self).spec_data(), k)
                        &&& res->Ok_0.spec_chars() == keyword_chars_at(old(self).spec_data(), j)
                        &&& final(self).spec_pos() == keyword_end_at(old(self).spec_data(), j)
                    };
            }
        }
        res
    }

    /// Skips the given number of words, mapping a missing tail of the stream
    /// to an I/O error.
    fn skip_words_io(&mut self, num_words: usize) -> (res: Result<(), Error>)
        ensures
            0 <= old(self).spec_pos(),
            final(self).spec_data() == old(self).spec_data(),
            res is Ok <==> old(self).spec_pos() + 4 * num_words <= old(self).spec_data().len(),
            match res {
                Ok(()) => final(self).spec_pos() == old(self).spec_pos() + 4 * num_words,
                Err(e) => final(self).spec_pos() == old(self).spec_pos() && e.is_io(),
            },
    {
        self.reader.skip_words(num_words)
    }

    /// Reads one big-endian word, mapping a missing tail of the stream to an
    /// I/O error.
    fn read_u32_io(&mut self) -> (res: Result<u32, Error>)
        ensures
            0 <= old(self).spec_pos(),
            final(self).spec_data() == old(self).spec_data(),
            res is Ok <==> old(self).spec_pos() + 4 <= old(self).spec_data().len(),
            match res {
                Ok(w) => w == be_word(old(self).spec_data(), old(self).spec_pos()) && final(
                    self
                ).spec_pos() == old(self).spec_pos() + 4,
                Err(e) => final(self).spec_pos() == old(self).spec_pos() && e.is_io(),
            },
    {
        self.reader.read_u32()
    }
}

/// Whether two string slices hold the same characters.
pub fn str_eq(a: &str, b: &str) -> (r: bool)
    ensures
        r == (a@ == b@),
{
    let na = a.unicode_len();
    let nb = b.unicode_len();
    if na != nb {
        return false;
    }
    let mut i: usize = 0;
    while i < na
        invariant
            0 <= i <= na,
            na == a@.len(),
            na == b@.len(),
            forall|k: int| 0 <= k < i ==> a@[k] == b@[k],
        decreases na - i,
    {
        if a.get_char(i) != b.get_char(i) {
            return false;
        }
        i = i + 1;
    }
    proof {
        assert(a@ =~= b@);
    }
    true
}

} // verus!
