//! Display columns and byte offsets of text.
use unicode_width::{UnicodeWidthChar, UnicodeWidthStr};
use vstd::prelude::*;
use vstd::utf8::{encode_scalar, encode_utf8};

use crate::chars::chars_of;
use crate::numbers::smaller;

verus! {

/// How many bytes UTF-8 takes for a character.
pub open spec fn utf8_len(c: char) -> nat {
    if (c as u32) < 0x80 {
        1
    } else if (c as u32) < 0x800 {
        2
    } else if (c as u32) < 0x10000 {
        3
    } else {
        4
    }
}

/// How many bytes UTF-8 takes for a text.
pub open spec fn byte_len(text: Seq<char>) -> nat
    decreases text.len(),
{
    if text.len() == 0 {
        0
    } else {
        byte_len(text.drop_last()) + utf8_len(text.last())
    }
}

/// Whether a character is a printable one of ASCII.
pub open spec fn is_printable_ascii(c: char) -> bool {
    0x20 <= c as u32 && (c as u32) < 0x7f
}

/// Whether a text holds nothing but printable ASCII.
pub open spec fn is_ascii_text(text: Seq<char>) -> bool {
    forall|i: int| 0 <= i < text.len() ==> is_printable_ascii(#[trigger] text[i])
}

/// Whether a character is a control character.
pub open spec fn is_control(c: char) -> bool {
    (c as u32) < 0x20 || 0x7f <= c as u32 && (c as u32) < 0xa0
}

/// Whether a character is one of those that tables are ruled with.
pub open spec fn is_rule_char(c: char) -> bool {
    c == '─' || c == '│' || c == '┼'
}

/// Whether every character of a text is printable ASCII or one that tables are ruled with.
pub open spec fn is_narrow_text(text: Seq<char>) -> bool {
    forall|i: int|
        0 <= i < text.len() ==> is_printable_ascii(#[trigger] text[i]) || is_rule_char(text[i])
}

/// What the `unicode-width` tables give a character beyond ASCII that is no control character.
pub uninterp spec fn table_columns(c: char) -> usize;

/// What the `unicode-width` rules give a whole string that is not narrow throughout.
pub uninterp spec fn measured_columns(text: Seq<char>) -> usize;

/// How many columns wide a character is; `None` for a control character.
pub open spec fn char_columns(c: char) -> Option<usize> {
    if is_control(c) {
        None
    } else if is_printable_ascii(c) {
        Some(1)
    } else {
        Some(table_columns(c))
    }
}

/// How many columns wide a text is.
pub open spec fn text_columns(text: Seq<char>) -> usize {
    if is_narrow_text(text) {
        text.len() as usize
    } else {
        measured_columns(text)
    }
}

/// `UnicodeWidthChar::width` gives control characters no width and printable ASCII one column, and
/// looks all others up in fixed tables. The one character that is three columns wide takes three
/// bytes, and every other entry is at most two, so no character has more columns than bytes.
#[verifier::external_body]
fn char_width(c: char) -> (columns: Option<usize>)
    ensures
        columns == if is_control(c) {
            None
        } else if is_printable_ascii(c) {
            Some(1usize)
        } else {
            Some(table_columns(c))
        },
        columns is Some ==> columns->0 <= utf8_len(c),
{
    UnicodeWidthChar::width(c)
}

/// `UnicodeWidthStr::width` sums up a string by fixed rules, some of which look at neighbouring
/// characters. Printable ASCII and the characters that tables are ruled with are one column wide
/// wherever they stand among each other.
#[verifier::external_body]
pub(crate) fn text_width(text: &str) -> (columns: usize)
    ensures
        is_narrow_text(text@) ==> columns == text@.len(),
        !is_narrow_text(text@) ==> columns == measured_columns(text@),
{
    UnicodeWidthStr::width(text)
}

/// The columns a cursor steps over for one character: at least one.
pub open spec fn cell_columns(c: char) -> nat {
    match char_columns(c) {
        Some(columns) => if columns >= 1 {
            columns as nat
        } else {
            1
        },
        None => 1,
    }
}

/// The columns a cursor steps over for a text.
pub open spec fn columns(text: Seq<char>) -> nat
    decreases text.len(),
{
    if text.len() == 0 {
        0
    } else {
        columns(text.drop_last()) + cell_columns(text.last())
    }
}

/// How many characters the longest prefix has that fits in `target` columns.
pub open spec fn chars_fitting(text: Seq<char>, target: int) -> int
    decreases text.len(),
{
    if text.len() == 0 || columns(text) <= target {
        text.len() as int
    } else {
        chars_fitting(text.drop_last(), target)
    }
}

/// How many characters begin before byte `target`.
pub open spec fn chars_before(text: Seq<char>, target: int) -> int
    decreases text.len(),
{
    if text.len() == 0 || byte_len(text.drop_last()) < target {
        text.len() as int
    } else {
        chars_before(text.drop_last(), target)
    }
}

/// The columns a cursor steps over for one character: at least one.
pub fn cell_width(c: char) -> (columns: usize)
    ensures
        columns == cell_columns(c),
        1 <= columns <= utf8_len(c),
        is_printable_ascii(c) ==> columns == 1,
{
    match char_width(c) {
        Some(columns) => if columns >= 1 {
            columns
        } else {
            1
        },
        None => 1,
    }
}

/// How many bytes UTF-8 takes for a character.
pub fn utf8_width(c: char) -> (bytes: usize)
    ensures
        bytes == utf8_len(c),
{
    let code = c as u32;
    if code < 0x80 {
        1
    } else if code < 0x800 {
        2
    } else if code < 0x10000 {
        3
    } else {
        4
    }
}

proof fn lemma_byte_len_front(text: Seq<char>)
    requires
        text.len() > 0,
    ensures
        byte_len(text) == utf8_len(text[0]) + byte_len(text.drop_first()),
    decreases text.len(),
{
    if text.len() == 1 {
        assert(text.drop_last() == Seq::<char>::empty());
        assert(text.drop_first() == Seq::<char>::empty());
    } else {
        lemma_byte_len_front(text.drop_last());
        assert(text.drop_last().drop_first() == text.drop_first().drop_last());
    }
}

/// The byte length is the length of the UTF-8 encoding.
pub proof fn lemma_byte_len_encoding(text: Seq<char>)
    ensures
        byte_len(text) == encode_utf8(text).len(),
    decreases text.len(),
{
    if text.len() > 0 {
        lemma_byte_len_front(text);
        lemma_byte_len_encoding(text.drop_first());
        vstd::utf8::char_is_scalar(text[0]);
        assert(encode_scalar(text[0] as u32).len() == utf8_len(text[0]));
    }
}

pub proof fn lemma_byte_len_take(text: Seq<char>, i: int, j: int)
    requires
        0 <= i <= j <= text.len(),
    ensures
        byte_len(text.take(i)) + (j - i) <= byte_len(text.take(j)),
        byte_len(text.take(j)) <= byte_len(text),
    decreases text.len() - i,
{
    if i < j {
        lemma_byte_len_take(text, i + 1, j);
        assert(text.take(i + 1).drop_last() == text.take(i));
    } else if j < text.len() {
        lemma_byte_len_take(text, i + 1, j + 1);
        assert(text.take(j + 1).drop_last() == text.take(j));
    } else {
        assert(text.take(j) == text);
    }
}

pub proof fn lemma_columns_take(text: Seq<char>, i: int, j: int)
    requires
        0 <= i <= j <= text.len(),
    ensures
        columns(text.take(i)) + (j - i) <= columns(text.take(j)),
    decreases j - i,
{
    if i < j {
        lemma_columns_take(text, i + 1, j);
        assert(text.take(i + 1).drop_last() == text.take(i));
    }
}

/// The longest fitting prefix is the one that fits while the next longer one does not.
pub proof fn lemma_chars_fitting(text: Seq<char>, target: int, k: int)
    requires
        0 <= k <= text.len(),
        columns(text.take(k)) <= target,
        k == text.len() || columns(text.take(k + 1)) > target,
    ensures
        chars_fitting(text, target) == k,
    decreases text.len(),
{
    if k == text.len() {
        assert(text.take(k) == text);
    } else {
        lemma_columns_take(text, k + 1, text.len() as int);
        assert(text.take(text.len() as int) == text);
        let shorter = text.drop_last();
        assert(shorter.take(k) == text.take(k));
        if k < shorter.len() {
            assert(shorter.take(k + 1) == text.take(k + 1));
        }
        lemma_chars_fitting(shorter, target, k);
    }
}

pub proof fn lemma_chars_fitting_bounds(text: Seq<char>, target: int)
    ensures
        0 <= chars_fitting(text, target) <= text.len(),
        target >= 0 ==> columns(text.take(chars_fitting(text, target))) <= target,
    decreases text.len(),
{
    if text.len() == 0 || columns(text) <= target {
        assert(text.take(text.len() as int) == text);
    } else {
        lemma_chars_fitting_bounds(text.drop_last(), target);
        let k = chars_fitting(text.drop_last(), target);
        assert(text.drop_last().take(k) == text.take(k));
    }
}

/// The characters that begin before a byte are those of the longest prefix ending before it.
pub proof fn lemma_chars_before(text: Seq<char>, target: int, k: int)
    requires
        0 <= k <= text.len(),
        k > 0 ==> byte_len(text.take(k - 1)) < target,
        k < text.len() ==> byte_len(text.take(k)) >= target,
    ensures
        chars_before(text, target) == k,
    decreases text.len(),
{
    if k == text.len() {
        if k > 0 {
            assert(text.take(k - 1) == text.drop_last());
        }
    } else {
        let shorter = text.drop_last();
        lemma_byte_len_take(text, k, text.len() - 1);
        assert(text.take(text.len() - 1) == shorter);
        if k > 0 {
            assert(shorter.take(k - 1) == text.take(k - 1));
        }
        assert(shorter.take(k) == text.take(k));
        lemma_chars_before(shorter, target, k);
    }
}

/// Nothing before a byte is lost when the byte moves on.
pub proof fn lemma_chars_before_monotonic(text: Seq<char>, a: int, b: int)
    requires
        a <= b,
    ensures
        0 <= chars_before(text, a) <= chars_before(text, b) <= text.len(),
    decreases text.len(),
{
    if text.len() > 0 {
        lemma_chars_before_monotonic(text.drop_last(), a, b);
    }
}

/// A character's byte offset leads back to the character.
pub proof fn law_byte_offset_round_trip(text: Seq<char>, k: int)
    requires
        0 <= k <= text.len(),
    ensures
        chars_before(text, byte_len(text.take(k)) as int) == k,
{
    if k > 0 {
        lemma_byte_len_take(text, k - 1, k);
    }
    lemma_chars_before(text, byte_len(text.take(k)) as int, k);
}

/// A character's column leads back to the character.
pub proof fn law_column_round_trip(text: Seq<char>, k: int)
    requires
        0 <= k <= text.len(),
    ensures
        chars_fitting(text, columns(text.take(k)) as int) == k,
{
    if k < text.len() {
        lemma_columns_take(text, k, k + 1);
    }
    lemma_chars_fitting(text, columns(text.take(k)) as int, k);
}

/// How many characters of `chars[..len]` fit in `target` columns.
pub fn char_index_for_column(chars: &Vec<char>, len: usize, target: usize) -> (index: usize)
    requires
        len <= chars@.len(),
    ensures
        index <= len,
        index == chars_fitting(chars@.take(len as int), target as int),
        is_ascii_text(chars@) ==> index == smaller(len, target),
{
    let ghost text = chars@.take(len as int);
    let mut column: usize = 0;
    let mut i: usize = 0;
    assert(text.take(0) == Seq::<char>::empty());
    while i < len
        invariant
            i <= len <= chars@.len(),
            text == chars@.take(len as int),
            column == columns(text.take(i as int)),
            column <= target,
            is_ascii_text(chars@) ==> column == i,
        decreases len - i,
    {
        let width = cell_width(chars[i]);
        assert(text.take(i + 1).drop_last() == text.take(i as int));
        if width > target - column {
            proof {
                lemma_chars_fitting(text, target as int, i as int);
            }
            return i;
        }
        column += width;
        i += 1;
    }
    proof {
        lemma_chars_fitting(text, target as int, i as int);
    }
    i
}

/// The column at which character `index` stands.
pub fn column_for_char_index(text: &str, chars: &Vec<char>, index: usize) -> (column: usize)
    requires
        chars@ == text@,
        index <= chars@.len(),
    ensures
        column == columns(text@.take(index as int)),
        is_ascii_text(text@) ==> column == index,
{
    let bytes = text.as_bytes().len();
    proof {
        lemma_byte_len_encoding(text@);
    }
    let mut column: usize = 0;
    let mut i: usize = 0;
    assert(text@.take(0) == Seq::<char>::empty());
    while i < index
        invariant
            i <= index <= chars@.len(),
            chars@ == text@,
            bytes == byte_len(text@),
            column == columns(text@.take(i as int)),
            column <= byte_len(text@.take(i as int)),
            is_ascii_text(text@) ==> column == i,
        decreases index - i,
    {
        assert(text@.take(i + 1).drop_last() == text@.take(i as int));
        proof {
            lemma_byte_len_take(text@, i + 1, i + 1);
        }
        column += cell_width(chars[i]);
        i += 1;
    }
    column
}

/// Printable ASCII takes one byte for each character.
proof fn lemma_ascii_bytes(text: Seq<char>, upto: int)
    requires
        is_ascii_text(text),
        0 <= upto <= text.len(),
    ensures
        byte_len(text.take(upto)) == upto,
    decreases upto,
{
    if upto > 0 {
        lemma_ascii_bytes(text, upto - 1);
        assert(text.take(upto).drop_last() == text.take(upto - 1));
        assert(is_printable_ascii(text[upto - 1]));
    }
}

/// The byte offset of the first character that does not fit in `target_column` columns.
pub fn byte_index_for_column(text: &str, target_column: usize) -> (index: usize)
    ensures
        index == byte_len(text@.take(chars_fitting(text@, target_column as int))),
        is_ascii_text(text@) ==> index == smaller(text@.len() as usize, target_column),
{
    let chars = chars_of(text);
    assert(chars@.take(chars@.len() as int) == text@);
    let upto = char_index_for_column(&chars, chars.len(), target_column);
    proof {
        if is_ascii_text(text@) {
            lemma_ascii_bytes(text@, upto as int);
        }
    }
    byte_index_for_char_index(text, &chars, upto)
}

/// The byte offset of character `index`.
pub fn byte_index_for_char_index(text: &str, chars: &Vec<char>, index: usize) -> (offset: usize)
    requires
        chars@ == text@,
        index <= chars@.len(),
    ensures
        offset == byte_len(text@.take(index as int)),
{
    let bytes = text.as_bytes().len();
    proof {
        lemma_byte_len_encoding(text@);
    }
    let mut offset: usize = 0;
    let mut i: usize = 0;
    assert(text@.take(0) == Seq::<char>::empty());
    while i < index
        invariant
            i <= index <= chars@.len(),
            chars@ == text@,
            bytes == byte_len(text@),
            offset == byte_len(text@.take(i as int)),
        decreases index - i,
    {
        assert(text@.take(i + 1).drop_last() == text@.take(i as int));
        proof {
            lemma_byte_len_take(text@, i + 1, i + 1);
        }
        offset += utf8_width(chars[i]);
        i += 1;
    }
    offset
}

/// How many characters begin before byte `target`.
pub fn char_index_for_byte(chars: &Vec<char>, target: usize) -> (index: usize)
    ensures
        index <= chars@.len(),
        index == chars_before(chars@, target as int),
{
    let mut offset: usize = 0;
    let mut i: usize = 0;
    assert(chars@.take(0) == Seq::<char>::empty());
    while i < chars.len()
        invariant
            i <= chars@.len(),
            offset == byte_len(chars@.take(i as int)),
            i > 0 ==> byte_len(chars@.take(i - 1)) < target,
        decreases chars.len() - i,
    {
        if offset >= target {
            proof {
                lemma_chars_before(chars@, target as int, i as int);
            }
            return i;
        }
        assert(chars@.take(i + 1).drop_last() == chars@.take(i as int));
        let bytes = utf8_width(chars[i]);
        if bytes >= target - offset {
            proof {
                lemma_chars_before(chars@, target as int, i + 1);
            }
            return i + 1;
        }
        offset += bytes;
        i += 1;
    }
    proof {
        lemma_chars_before(chars@, target as int, i as int);
    }
    i
}

/// The column of the first character that begins at or after byte `target_index`.
pub fn column_for_byte_index(text: &str, target_index: usize) -> (column: usize)
    ensures
        column == columns(text@.take(chars_before(text@, target_index as int))),
        is_ascii_text(text@) ==> column == smaller(text@.len() as usize, target_index),
{
    let chars = chars_of(text);
    let index = char_index_for_byte(&chars, target_index);
    proof {
        if is_ascii_text(text@) {
            let offset = smaller(text@.len() as usize, target_index) as int;
            lemma_ascii_bytes(text@, offset);
            if offset > 0 {
                lemma_ascii_bytes(text@, offset - 1);
            }
            lemma_chars_before(text@, target_index as int, offset);
        }
    }
    column_for_char_index(text, &chars, index)
}

/// Going from a column to a byte and back lands on the column where the character in that column
/// begins, which is never further right.
pub proof fn law_column_to_byte_and_back(text: Seq<char>, column: int)
    requires
        0 <= column,
    ensures
        ({
            let k = chars_fitting(text, column);
            let byte = byte_len(text.take(k)) as int;
            let back = columns(text.take(chars_before(text, byte)));
            back == columns(text.take(k)) && back <= column
        }),
{
    lemma_chars_fitting_bounds(text, column);
    law_byte_offset_round_trip(text, chars_fitting(text, column));
}

} // verus!
