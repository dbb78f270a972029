//! Reading the text of a Wavefront file.
//!
//! The text is read line by line. A line that begins with `v` and three more
//! words names a corner of the mesh; the words are numbers with a fraction, which
//! are handed on as they stand. A line that begins with `f` and three more words
//! names a triangle by the numbers of its corners, counted from one in the order
//! in which the corners were named; what follows a slash in such a word is passed
//! over. Every other line is passed over.

use vstd::prelude::*;

verus! {

/// Whether a byte separates words: a blank, a tab, or an end of line.
pub open spec fn is_space(b: u8) -> bool {
    b == 32 || (9 <= b && b <= 13)
}

/// A stretch of the text, from the byte at `start` to just before the byte at `end`.
#[derive(Clone, Copy, Debug, PartialEq, Eq, Structural)]
pub struct Span {
    pub start: usize,
    pub end: usize,
}

/// The stretch from `start` to just before `end`.
pub open spec fn span(start: int, end: int) -> Span {
    Span { start: start as usize, end: end as usize }
}

/// Where the word that begins at `i` ends: at the first separator at or after
/// `i`, or at `end`.
pub open spec fn word_end(text: Seq<u8>, i: int, end: int) -> int
    decreases end - i,
{
    if i >= end {
        end
    } else if is_space(text[i]) {
        i
    } else {
        word_end(text, i + 1, end)
    }
}

/// The words of the text between `i` and `end`, in their order. A word is never
/// empty, so what follows it begins after it.
pub open spec fn words(text: Seq<u8>, i: int, end: int) -> Seq<Span>
    decreases end - i,
{
    if i >= end {
        Seq::empty()
    } else if is_space(text[i]) {
        words(text, i + 1, end)
    } else {
        let stop = word_end(text, i, end);
        let next = if i < stop <= end {
            stop
        } else {
            i + 1
        };
        seq![span(i, stop)] + words(text, next, end)
    }
}

/// A word ends after it begins, and no later than the text.
pub proof fn lemma_word_end(text: Seq<u8>, i: int, end: int)
    requires
        0 <= i <= end <= text.len(),
    ensures
        i <= word_end(text, i, end) <= end,
        i < end && !is_space(text[i]) ==> i < word_end(text, i, end),
        forall|k: int| i <= k < word_end(text, i, end) ==> !is_space(#[trigger] text[k]),
        word_end(text, i, end) < end ==> is_space(text[word_end(text, i, end)]),
    decreases end - i,
{
    if i < end && !is_space(text[i]) {
        lemma_word_end(text, i + 1, end);
    }
}

/// Finds the end of the word that begins at `i`.
fn find_word_end(text: &[u8], i: usize, end: usize) -> (stop: usize)
    requires
        i <= end <= text@.len(),
    ensures
        stop == word_end(text@, i as int, end as int),
        i <= stop <= end,
{
    let mut k: usize = i;
    while k < end && !(text[k] == 32 || (9 <= text[k] && text[k] <= 13))
        invariant
            i <= k <= end,
            end <= text@.len(),
            word_end(text@, i as int, end as int) == word_end(text@, k as int, end as int),
        decreases end - k,
    {
        k = k + 1;
    }
    k
}

/// The words of the text between `start` and `end`.
pub fn split_words(text: &[u8], start: usize, end: usize) -> (found: Vec<Span>)
    requires
        start <= end <= text@.len(),
    ensures
        found@ == words(text@, start as int, end as int),
{
    let mut found: Vec<Span> = Vec::new();
    let mut i: usize = start;
    while i < end
        invariant
            start <= i <= end,
            end <= text@.len(),
            found@ + words(text@, i as int, end as int) == words(text@, start as int, end as int),
        decreases end - i,
    {
        if text[i] == 32 || (9 <= text[i] && text[i] <= 13) {
            i = i + 1;
        } else {
            let stop = find_word_end(text, i, end);
            proof {
                lemma_word_end(text@, i as int, end as int);
                assert((found@ + seq![span(i as int, stop as int)]) + words(
                    text@,
                    stop as int,
                    end as int,
                ) =~= found@ + (seq![span(i as int, stop as int)] + words(
                    text@,
                    stop as int,
                    end as int,
                )));
            }
            found.push(Span { start: i, end: stop });
            i = stop;
        }
    }
    proof {
        assert(found@ + Seq::<Span>::empty() =~= found@);
    }
    found
}

/// Whether a byte is one of the digits `0` to `9`.
pub open spec fn is_digit(b: u8) -> bool {
    48 <= b && b <= 57
}

/// Whether the text holds nothing but digits between `i` and `end`.
pub open spec fn all_digits(text: Seq<u8>, i: int, end: int) -> bool {
    forall|k: int| i <= k < end ==> is_digit(#[trigger] text[k])
}

/// The number that the digits between `i` and `end` write in decimal.
pub open spec fn number(text: Seq<u8>, i: int, end: int) -> nat
    decreases end - i,
{
    if end <= i {
        0
    } else {
        10 * number(text, i, end - 1) + (text[end - 1] - 48) as nat
    }
}

/// The first place at or after `i` and before `end` that holds the byte `b`, or
/// `end` where none does.
pub open spec fn find(text: Seq<u8>, b: u8, i: int, end: int) -> int
    decreases end - i,
{
    if i >= end {
        end
    } else if text[i] == b {
        i
    } else {
        find(text, b, i + 1, end)
    }
}

/// The byte that ends a line.
pub const NEWLINE: u8 = 10;

/// The byte that ends the number of a corner in the word of a triangle.
pub const SLASH: u8 = 47;

/// The byte that may stand before a number.
pub const PLUS: u8 = 43;

/// The number of a corner that a word of a triangle gives: the digits before the
/// first slash, after a plus sign if there is one. `None` where there is no
/// digit, where something else stands among the digits, and where the number is
/// too large to count with.
pub open spec fn corner_number(text: Seq<u8>, w: Span) -> Option<usize> {
    plain_number(text, w.start as int, find(text, SLASH, w.start as int, w.end as int))
}

/// The number written between `start` and `cut`: digits, after a plus sign if
/// there is one. `None` where there is no digit, where something else stands
/// among the digits, and where the number is too large to count with.
pub open spec fn plain_number(text: Seq<u8>, start: int, cut: int) -> Option<usize> {
    let first = if start < cut && text[start] == PLUS {
        start + 1
    } else {
        start
    };
    if first < cut && all_digits(text, first, cut) && number(text, first, cut) <= usize::MAX {
        Some(number(text, first, cut) as usize)
    } else {
        None
    }
}

/// The place found lies between where the search began and where it ended, holds
/// the byte if it is not the end, and nothing before it holds the byte.
pub proof fn lemma_find(text: Seq<u8>, b: u8, i: int, end: int)
    requires
        0 <= i <= end <= text.len(),
    ensures
        i <= find(text, b, i, end) <= end,
        find(text, b, i, end) < end ==> text[find(text, b, i, end)] == b,
        forall|k: int| i <= k < find(text, b, i, end) ==> #[trigger] text[k] != b,
    decreases end - i,
{
    if i < end && text[i] != b {
        lemma_find(text, b, i + 1, end);
    }
}

/// More digits never write a smaller number.
pub proof fn lemma_number_grows(text: Seq<u8>, i: int, mid: int, end: int)
    requires
        i <= mid <= end,
        all_digits(text, i, end),
    ensures
        number(text, i, mid) <= number(text, i, end),
    decreases end - mid,
{
    if mid < end {
        lemma_number_grows(text, i, mid, end - 1);
        assert(is_digit(text[end - 1]));
    }
}

/// Finds the first place that holds the byte `b`.
fn find_byte(text: &[u8], b: u8, i: usize, end: usize) -> (at: usize)
    requires
        i <= end <= text@.len(),
    ensures
        at == find(text@, b, i as int, end as int),
        i <= at <= end,
{
    let mut k: usize = i;
    while k < end && text[k] != b
        invariant
            i <= k <= end,
            end <= text@.len(),
            find(text@, b, i as int, end as int) == find(text@, b, k as int, end as int),
        decreases end - k,
    {
        k = k + 1;
    }
    k
}

/// Reads the number of a corner out of a word of a triangle.
pub fn parse_corner(text: &[u8], w: Span) -> (corner: Option<usize>)
    requires
        w.start <= w.end <= text@.len(),
    ensures
        corner == corner_number(text@, w),
{
    let cut = find_byte(text, SLASH, w.start, w.end);
    parse_number(text, w.start, cut)
}

/// Reads the number written between `start` and `cut`.
pub fn parse_number(text: &[u8], start: usize, cut: usize) -> (found: Option<usize>)
    requires
        start <= cut <= text@.len(),
    ensures
        found == plain_number(text@, start as int, cut as int),
{
    let first = if start < cut && text[start] == PLUS {
        start + 1
    } else {
        start
    };
    if first >= cut {
        return None;
    }
    let mut value: usize = 0;
    let mut k: usize = first;
    while k < cut
        invariant
            first <= k <= cut,
            cut <= text@.len(),
            first == (if start < cut && text@[start as int] == PLUS {
                start + 1
            } else {
                start as int
            }),
            all_digits(text@, first as int, k as int),
            value == number(text@, first as int, k as int),
        decreases cut - k,
    {
        let b = text[k];
        if b < 48 || b > 57 {
            assert(!is_digit(text@[k as int]));
            assert(!all_digits(text@, first as int, cut as int));
            return None;
        }
        let digit = (b - 48) as usize;
        proof {
            assert(number(text@, first as int, k + 1) == 10 * value + digit);
            if all_digits(text@, first as int, cut as int) {
                lemma_number_grows(text@, first as int, k + 1, cut as int);
            }
        }
        if value > (usize::MAX - digit) / 10 {
            assert(10 * value + digit > usize::MAX) by (nonlinear_arith)
                requires
                    value > (usize::MAX - digit) / 10,
                    0 <= digit <= 9,
            ;
            assert(all_digits(text@, first as int, cut as int) ==> number(
                text@,
                first as int,
                cut as int,
            ) > usize::MAX);
            return None;
        }
        assert(10 * value + digit <= usize::MAX) by (nonlinear_arith)
            requires
                value <= (usize::MAX - digit) / 10,
                0 <= digit <= 9,
        ;
        value = 10 * value + digit;
        k = k + 1;
    }
    Some(value)
}

/// A corner of the mesh: where in the text its three coordinates are written.
#[derive(Clone, Copy, Debug, PartialEq, Eq, Structural)]
pub struct ObjVertex {
    pub x: Span,
    pub y: Span,
    pub z: Span,
}

/// A triangle of the mesh: its three corners, counted from zero in the order in
/// which the text names them.
#[derive(Clone, Copy, Debug, PartialEq, Eq, Structural)]
pub struct ObjFace {
    pub a: usize,
    pub b: usize,
    pub c: usize,
}

/// Why a text could not be read.
#[derive(Clone, Copy, Debug, PartialEq, Eq, Structural)]
pub enum ObjError {
    /// A corner or a triangle is named with fewer than three words.
    MissingField,
    /// A word of a triangle gives no number.
    BadIndex,
    /// A triangle names a corner that the text has not named before it.
    NoSuchVertex,
}

/// What a text holds: its corners and its triangles, each in the order of the text.
#[derive(Debug)]
pub struct ObjText {
    pub vertices: Vec<ObjVertex>,
    pub faces: Vec<ObjFace>,
}

/// The corners and triangles read so far.
pub struct ObjModel {
    pub vertices: Seq<ObjVertex>,
    pub faces: Seq<ObjFace>,
}

impl View for ObjText {
    type V = ObjModel;

    open spec fn view(&self) -> ObjModel {
        ObjModel { vertices: self.vertices@, faces: self.faces@ }
    }
}

impl ObjModel {
    /// Whether every triangle names corners that there are.
    pub open spec fn is_closed(&self) -> bool {
        forall|k: int|
            0 <= k < self.faces.len() ==> {
                &&& (#[trigger] self.faces[k]).a < self.vertices.len()
                &&& self.faces[k].b < self.vertices.len()
                &&& self.faces[k].c < self.vertices.len()
            }
    }
}

/// Whether a word is the single letter `letter`.
pub open spec fn is_letter(text: Seq<u8>, w: Span, letter: u8) -> bool {
    w.end == w.start + 1 && text[w.start as int] == letter
}

/// The letter that begins the line of a corner.
pub const LETTER_V: u8 = 118;

/// The letter that begins the line of a triangle.
pub const LETTER_F: u8 = 102;

/// Whether the number `n` names one of the first `count` corners, counted from one.
pub open spec fn names_corner(n: usize, count: int) -> bool {
    1 <= n <= count
}

/// What is read after the line with the words `line`, given what was read before it.
pub open spec fn after_line(text: Seq<u8>, line: Seq<Span>, before: ObjModel) -> Result<
    ObjModel,
    ObjError,
> {
    if line.len() == 0 {
        Ok(before)
    } else if is_letter(text, line[0], LETTER_V) {
        if line.len() < 4 {
            Err(ObjError::MissingField)
        } else {
            Ok(
                ObjModel {
                    vertices: before.vertices.push(ObjVertex { x: line[1], y: line[2], z: line[3] }),
                    faces: before.faces,
                },
            )
        }
    } else if is_letter(text, line[0], LETTER_F) {
        if line.len() < 4 {
            Err(ObjError::MissingField)
        } else {
            match (
                corner_number(text, line[1]),
                corner_number(text, line[2]),
                corner_number(text, line[3]),
            ) {
                (Some(a), Some(b), Some(c)) => {
                    let count = before.vertices.len() as int;
                    if names_corner(a, count) && names_corner(b, count) && names_corner(c, count) {
                        Ok(
                            ObjModel {
                                vertices: before.vertices,
                                faces: before.faces.push(
                                    ObjFace {
                                        a: (a - 1) as usize,
                                        b: (b - 1) as usize,
                                        c: (c - 1) as usize,
                                    },
                                ),
                            },
                        )
                    } else {
                        Err(ObjError::NoSuchVertex)
                    }
                },
                _ => Err(ObjError::BadIndex),
            }
        }
    } else {
        Ok(before)
    }
}

/// What is read from the text from the beginning of a line at `i` on, given what
/// was read before it. The first line that cannot be read ends the reading.
pub open spec fn read_from(text: Seq<u8>, i: int, before: ObjModel) -> Result<ObjModel, ObjError>
    decreases text.len() - i,
{
    if i >= text.len() {
        Ok(before)
    } else {
        let end = find(text, NEWLINE, i, text.len() as int);
        let next = if i <= end < text.len() {
            end + 1
        } else {
            text.len() as int
        };
        match after_line(text, words(text, i, end), before) {
            Ok(after) => read_from(text, next, after),
            Err(why) => Err(why),
        }
    }
}

/// What the whole text holds.
pub open spec fn read(text: Seq<u8>) -> Result<ObjModel, ObjError> {
    read_from(text, 0, ObjModel { vertices: Seq::empty(), faces: Seq::empty() })
}

/// Reads the text of a Wavefront file.
pub fn load_from_obj_str(text: &[u8]) -> (r: Result<ObjText, ObjError>)
    ensures
        match (r, read(text@)) {
            (Ok(held), Ok(model)) => held@ == model && model.is_closed(),
            (Err(why), Err(cause)) => why == cause,
            _ => false,
        },
{
    let mut held = ObjText { vertices: Vec::new(), faces: Vec::new() };
    let mut i: usize = 0;
    while i < text.len()
        invariant
            i <= text@.len(),
            read_from(text@, i as int, held@) == read(text@),
            held@.is_closed(),
        decreases text@.len() - i,
    {
        let end = find_byte(text, NEWLINE, i, text.len());
        let line = split_words(text, i, end);
        let ghost before = held@;
        if line.len() > 0 {
            let head = line[0];
            proof {
                lemma_words_in_range(text@, i as int, end as int);
            }
            if head.end == head.start + 1 && text[head.start] == LETTER_V {
                if line.len() < 4 {
                    return Err(ObjError::MissingField);
                }
                held.vertices.push(ObjVertex { x: line[1], y: line[2], z: line[3] });
            } else if head.end == head.start + 1 && text[head.start] == LETTER_F {
                if line.len() < 4 {
                    return Err(ObjError::MissingField);
                }
                let a = parse_corner(text, line[1]);
                let b = parse_corner(text, line[2]);
                let c = parse_corner(text, line[3]);
                match (a, b, c) {
                    (Some(a), Some(b), Some(c)) => {
                        let count = held.vertices.len();
                        if a >= 1 && a <= count && b >= 1 && b <= count && c >= 1 && c <= count {
                            held.faces.push(ObjFace { a: a - 1, b: b - 1, c: c - 1 });
                        } else {
                            return Err(ObjError::NoSuchVertex);
                        }
                    },
                    _ => {
                        return Err(ObjError::BadIndex);
                    },
                }
            }
        }
        proof {
            assert(after_line(text@, line@, before) == Ok::<ObjModel, ObjError>(held@));
        }
        i = if end < text.len() {
            end + 1
        } else {
            end
        };
    }
    Ok(held)
}

/// Whether the byte at `k` lies in some word of `found`.
pub open spec fn in_some_word(found: Seq<Span>, k: int) -> bool {
    exists|j: int| 0 <= j < found.len() && (#[trigger] found[j]).start <= k < found[j].end
}

/// The words are what the separators leave: no word holds a separator, and every
/// byte that is no separator lies in a word.
pub proof fn lemma_words_cover(text: Seq<u8>, i: int, end: int)
    requires
        0 <= i <= end <= text.len(),
        end <= usize::MAX,
    ensures
        forall|j: int, k: int|
            0 <= j < words(text, i, end).len() && (#[trigger] words(text, i, end)[j]).start <= k
                < words(text, i, end)[j].end ==> !is_space(#[trigger] text[k]),
        forall|k: int|
            i <= k < end && !is_space(#[trigger] text[k]) ==> in_some_word(words(text, i, end), k),
    decreases end - i,
{
    let all = words(text, i, end);
    if i < end {
        if is_space(text[i]) {
            lemma_words_cover(text, i + 1, end);
            assert(all == words(text, i + 1, end));
        } else {
            lemma_word_end(text, i, end);
            let stop = word_end(text, i, end);
            lemma_words_cover(text, stop, end);
            let rest = words(text, stop, end);
            assert(all == seq![span(i, stop)] + rest);
            assert(all[0] == span(i, stop));
            assert forall|j: int, k: int|
                0 <= j < all.len() && (#[trigger] all[j]).start <= k < all[j].end implies !is_space(
                #[trigger] text[k],
            ) by {
                if j > 0 {
                    assert(all[j] == rest[j - 1]);
                }
            }
            assert forall|k: int| i <= k < end && !is_space(#[trigger] text[k]) implies in_some_word(
                all,
                k,
            ) by {
                if k < stop {
                    assert(all[0].start <= k < all[0].end);
                } else {
                    assert(in_some_word(rest, k));
                    let j = choose|j: int|
                        0 <= j < rest.len() && (#[trigger] rest[j]).start <= k < rest[j].end;
                    assert(all[j + 1] == rest[j]);
                }
            }
        }
    }
}

/// Every word lies inside the stretch that it was found in, and is not empty.
pub proof fn lemma_words_in_range(text: Seq<u8>, i: int, end: int)
    requires
        0 <= i <= end <= text.len(),
        end <= usize::MAX,
    ensures
        forall|k: int|
            0 <= k < words(text, i, end).len() ==> i <= (#[trigger] words(text, i, end)[k]).start
                < words(text, i, end)[k].end <= end,
    decreases end - i,
{
    let all = words(text, i, end);
    if i < end {
        if is_space(text[i]) {
            lemma_words_in_range(text, i + 1, end);
            assert(all == words(text, i + 1, end));
        } else {
            lemma_word_end(text, i, end);
            let stop = word_end(text, i, end);
            lemma_words_in_range(text, stop, end);
            let rest = words(text, stop, end);
            assert(all == seq![span(i, stop)] + rest);
            assert forall|k: int| 0 <= k < all.len() implies i <= (#[trigger] all[k]).start
                < all[k].end <= end by {
                if k > 0 {
                    assert(all[k] == rest[k - 1]);
                } else {
                    assert(all[0] == span(i, stop));
                }
            }
        }
    }
}

} // verus!
