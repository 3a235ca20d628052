//! The lines of a mesh description: `v x y z` gives a vertex, `f a b c` a
//! face, where each corner of a face is a vertex number that may be
//! followed by `/` and further numbers. Words are separated by ASCII
//! white space; every other line says nothing about the mesh.

use vstd::prelude::*;
use crate::color::Color;
use crate::mesh::Face;
use crate::texture::Tex2;

verus! {

/// Whether the byte is ASCII white space.
pub open spec fn is_space(b: u8) -> bool {
    b == 0x20 || (0x09 <= b && b <= 0x0d)
}

/// Whether the byte is a decimal digit.
pub open spec fn is_digit(b: u8) -> bool {
    0x30 <= b && b <= 0x39
}

/// The first place at or after `from` that holds no white space, or the
/// length of the text if there is none.
pub open spec fn skip_spaces(s: Seq<u8>, from: int) -> int
    decreases s.len() - from,
{
    if 0 <= from < s.len() && is_space(s[from]) {
        skip_spaces(s, from + 1)
    } else if 0 <= from < s.len() {
        from
    } else {
        s.len() as int
    }
}

/// The first place at or after `from` that holds white space, or the
/// length of the text if there is none.
pub open spec fn skip_word(s: Seq<u8>, from: int) -> int
    decreases s.len() - from,
{
    if 0 <= from < s.len() && !is_space(s[from]) {
        skip_word(s, from + 1)
    } else if 0 <= from < s.len() {
        from
    } else {
        s.len() as int
    }
}

/// The first place at or after `from` that holds `/`, or the length of
/// the text if there is none.
pub open spec fn skip_to_slash(s: Seq<u8>, from: int) -> int
    decreases s.len() - from,
{
    if 0 <= from < s.len() && s[from] != 0x2f {
        skip_to_slash(s, from + 1)
    } else if 0 <= from < s.len() {
        from
    } else {
        s.len() as int
    }
}

/// A stretch of a line: the bytes from `start` up to `end`.
#[derive(Debug, Clone, Copy, PartialEq, Eq, Structural)]
pub struct Span {
    pub start: usize,
    pub end: usize,
}

/// The first word that starts at or after `from`. Where there is none, it
/// is the empty stretch at the end of the text.
pub open spec fn word_from(s: Seq<u8>, from: int) -> (int, int) {
    let start = skip_spaces(s, from);
    (start, skip_word(s, start))
}

/// The number that a run of decimal digits writes.
pub open spec fn decimal(digits: Seq<u8>) -> int
    decreases digits.len(),
{
    if digits.len() == 0 {
        0
    } else {
        10 * decimal(digits.drop_last()) + (digits.last() - 0x30)
    }
}

/// Whether the text is made of decimal digits alone.
pub open spec fn all_digits(s: Seq<u8>) -> bool {
    forall|i: int| 0 <= i < s.len() ==> is_digit(#[trigger] s[i])
}

/// The digits of a number written with or without a `+` before it.
pub open spec fn unsigned_digits(s: Seq<u8>) -> Seq<u8> {
    if s.len() > 0 && s[0] == 0x2b {
        s.subrange(1, s.len() as int)
    } else {
        s
    }
}

/// The number that the text writes, if it is one or more decimal digits,
/// with or without a `+` before them, and the number fits.
pub open spec fn unsigned(s: Seq<u8>) -> Option<usize> {
    let digits = unsigned_digits(s);
    if digits.len() > 0 && all_digits(digits) && decimal(digits) <= usize::MAX {
        Some(decimal(digits) as usize)
    } else {
        None
    }
}

/// The vertex number that a corner of a face names: what stands before
/// the first `/` of the word, and one where that is no number.
pub open spec fn vertex_number(word: Seq<u8>) -> usize {
    match unsigned(word.subrange(0, skip_to_slash(word, 0))) {
        Some(n) => n,
        None => 1,
    }
}

/// What a line of a mesh description says.
#[derive(Debug, Clone, Copy, PartialEq, Eq, Structural)]
pub enum ObjLine {
    /// A vertex; the stretches hold the text of its three coordinates.
    Vertex { x: Span, y: Span, z: Span },
    /// A face, white and with every texture coordinate at zero.
    Face { face: Face },
    /// A vertex or a face with fewer than three words after the first.
    Incomplete,
    /// Anything else.
    Other,
}

/// The face with the given vertex numbers that a line gives.
pub open spec fn plain_face(a: usize, b: usize, c: usize) -> Face {
    Face {
        a,
        b,
        c,
        a_uv: Tex2 { u: 0, v: 0 },
        b_uv: Tex2 { u: 0, v: 0 },
        c_uv: Tex2 { u: 0, v: 0 },
        color: Color { r: 255, g: 255, b: 255, a: 255 },
    }
}

/// The stretch between two places of a line.
pub open spec fn span_of(range: (int, int)) -> Span {
    Span { start: range.0 as usize, end: range.1 as usize }
}

/// What the line says: by its first word a vertex (`v`) or a face (`f`),
/// each with the three words that follow, or nothing of either.
pub open spec fn obj_line(s: Seq<u8>) -> ObjLine {
    let w0 = word_from(s, 0);
    let w1 = word_from(s, w0.1);
    let w2 = word_from(s, w1.1);
    let w3 = word_from(s, w2.1);
    let first = s.subrange(w0.0, w0.1);
    if first == seq![0x76u8] {
        if w3.0 < s.len() {
            ObjLine::Vertex { x: span_of(w1), y: span_of(w2), z: span_of(w3) }
        } else {
            ObjLine::Incomplete
        }
    } else if first == seq![0x66u8] {
        if w3.0 < s.len() {
            ObjLine::Face {
                face: plain_face(
                    vertex_number(s.subrange(w1.0, w1.1)),
                    vertex_number(s.subrange(w2.0, w2.1)),
                    vertex_number(s.subrange(w3.0, w3.1)),
                ),
            }
        } else {
            ObjLine::Incomplete
        }
    } else {
        ObjLine::Other
    }
}

/// Whether the byte is ASCII white space.
fn space(b: u8) -> (r: bool)
    ensures
        r == is_space(b),
{
    b == 0x20 || (0x09 <= b && b <= 0x0d)
}

/// Finds the first word of the line that starts at or after `from`.
pub fn next_word(line: &[u8], from: usize) -> (word: Span)
    requires
        from <= line@.len(),
    ensures
        (word.start as int, word.end as int) == word_from(line@, from as int),
        from <= word.start <= word.end <= line@.len(),
{
    let len: usize = line.len();
    let mut start: usize = from;
    while start < len && space(line[start])
        invariant
            len == line@.len(),
            from <= start <= len,
            skip_spaces(line@, start as int) == skip_spaces(line@, from as int),
        decreases len - start,
    {
        start += 1;
    }
    let mut end: usize = start;
    while end < len && !space(line[end])
        invariant
            len == line@.len(),
            start <= end <= len,
            skip_word(line@, end as int) == skip_word(line@, start as int),
        decreases len - end,
    {
        end += 1;
    }
    Span { start, end }
}

/// A run of digits writes at least what any of its beginnings writes.
pub proof fn lemma_decimal_grows(digits: Seq<u8>, n: int)
    requires
        all_digits(digits),
        0 <= n <= digits.len(),
    ensures
        0 <= decimal(digits.subrange(0, n)) <= decimal(digits),
    decreases digits.len() - n,
{
    if n == digits.len() {
        assert(digits.subrange(0, n) =~= digits);
        lemma_decimal_nonnegative(digits);
    } else {
        let shorter = digits.subrange(0, n);
        let longer = digits.subrange(0, n + 1);
        assert(longer.drop_last() =~= shorter);
        assert(longer.last() == digits[n]);
        assert(is_digit(longer.last()));
        assert forall|i: int| 0 <= i < shorter.len() implies is_digit(#[trigger] shorter[i]) by {
            assert(shorter[i] == digits[i]);
        }
        lemma_decimal_grows(digits, n + 1);
        lemma_decimal_nonnegative(shorter);
    }
}

/// A run of digits writes no negative number.
pub proof fn lemma_decimal_nonnegative(digits: Seq<u8>)
    requires
        all_digits(digits),
    ensures
        0 <= decimal(digits),
    decreases digits.len(),
{
    if digits.len() > 0 {
        assert(is_digit(digits.last()));
        assert forall|i: int| 0 <= i < digits.drop_last().len() implies is_digit(
            #[trigger] digits.drop_last()[i],
        ) by {
            assert(digits.drop_last()[i] == digits[i]);
        }
        lemma_decimal_nonnegative(digits.drop_last());
    }
}

/// Reads the number that the stretch of the line from `start` to `end`
/// writes.
pub fn parse_unsigned(line: &[u8], start: usize, end: usize) -> (number: Option<usize>)
    requires
        start <= end <= line@.len(),
    ensures
        number == unsigned(line@.subrange(start as int, end as int)),
{
    let ghost text = line@.subrange(start as int, end as int);
    let first: usize = if start < end && line[start] == 0x2b {
        start + 1
    } else {
        start
    };
    let ghost digits = unsigned_digits(text);
    assert(digits =~= line@.subrange(first as int, end as int));
    if first == end {
        return None;
    }
    let mut value: usize = 0;
    let mut i: usize = first;
    while i < end
        invariant
            first <= i <= end <= line@.len(),
            start <= first,
            text == line@.subrange(start as int, end as int),
            digits == unsigned_digits(text),
            digits == line@.subrange(first as int, end as int),
            all_digits(digits.subrange(0, i - first)),
            value == decimal(digits.subrange(0, i - first)),
        decreases end - i,
    {
        let b: u8 = line[i];
        let ghost longer = digits.subrange(0, i - first + 1);
        proof {
            assert(longer.drop_last() =~= digits.subrange(0, i - first));
            assert(longer.last() == b);
        }
        if !(0x30 <= b && b <= 0x39) {
            proof {
                assert(!is_digit(digits[i - first]));
            }
            return None;
        }
        let d: usize = (b - 0x30) as usize;
        if value > (usize::MAX - d) / 10 {
            proof {
                assert(decimal(longer) > usize::MAX);
                if all_digits(digits) {
                    lemma_decimal_grows(digits, i - first + 1);
                }
            }
            return None;
        }
        value = value * 10 + d;
        proof {
            assert forall|j: int| 0 <= j < longer.len() implies is_digit(#[trigger] longer[j]) by {
                if j < i - first {
                    assert(digits.subrange(0, i - first)[j] == longer[j]);
                }
            }
        }
        i += 1;
    }
    proof {
        assert(digits.subrange(0, end - first) =~= digits);
    }
    Some(value)
}

/// Reads the vertex number that the word from `start` to `end` names.
pub fn parse_vertex_number(line: &[u8], start: usize, end: usize) -> (number: usize)
    requires
        start <= end <= line@.len(),
    ensures
        number == vertex_number(line@.subrange(start as int, end as int)),
{
    let ghost word = line@.subrange(start as int, end as int);
    let mut slash: usize = start;
    while slash < end && line[slash] != 0x2f
        invariant
            start <= slash <= end <= line@.len(),
            word == line@.subrange(start as int, end as int),
            skip_to_slash(word, slash - start) == skip_to_slash(word, 0),
        decreases end - slash,
    {
        slash += 1;
    }
    proof {
        assert(word.subrange(0, slash - start) =~= line@.subrange(start as int, slash as int));
    }
    match parse_unsigned(line, start, slash) {
        Some(n) => n,
        None => 1,
    }
}

/// Reads one line of a mesh description.
pub fn parse_obj_line(line: &[u8]) -> (parsed: ObjLine)
    ensures
        parsed == obj_line(line@),
{
    let w0 = next_word(line, 0);
    let w1 = next_word(line, w0.end);
    let w2 = next_word(line, w1.end);
    let w3 = next_word(line, w2.end);
    let ghost first = line@.subrange(w0.start as int, w0.end as int);
    let is_vertex = w0.end - w0.start == 1 && line[w0.start] == 0x76;
    let is_face = w0.end - w0.start == 1 && line[w0.start] == 0x66;
    proof {
        assert(is_vertex == (first == seq![0x76u8])) by {
            if is_vertex {
                assert(first =~= seq![0x76u8]);
            } else if first == seq![0x76u8] {
                assert(first.len() == 1);
                assert(first[0] == 0x76u8);
            }
        }
        assert(is_face == (first == seq![0x66u8])) by {
            if is_face {
                assert(first =~= seq![0x66u8]);
            } else if first == seq![0x66u8] {
                assert(first.len() == 1);
                assert(first[0] == 0x66u8);
            }
        }
    }
    if is_vertex {
        if w3.start < line.len() {
            ObjLine::Vertex { x: w1, y: w2, z: w3 }
        } else {
            ObjLine::Incomplete
        }
    } else if is_face {
        if w3.start < line.len() {
            let a = parse_vertex_number(line, w1.start, w1.end);
            let b = parse_vertex_number(line, w2.start, w2.end);
            let c = parse_vertex_number(line, w3.start, w3.end);
            ObjLine::Face {
                face: Face {
                    a,
                    b,
                    c,
                    a_uv: Tex2 { u: 0, v: 0 },
                    b_uv: Tex2 { u: 0, v: 0 },
                    c_uv: Tex2 { u: 0, v: 0 },
                    color: Color::rgba(255, 255, 255, 255),
                },
            }
        } else {
            ObjLine::Incomplete
        }
    } else {
        ObjLine::Other
    }
}

} // verus!
