//! What the smallest operations give: on numbers, on texts and on styles.
use vstd::prelude::*;

use crate::chars::{
    all_digits, contains_text, decimal_text, digit_char, digits_value, has_prefix, is_space,
    number_u32, split_text, stands_at, trimmed, trimmed_end, trimmed_start,
};
use crate::laws::selected::{is_trailing, lemma_trailing};
use crate::laws::words::{lemma_ascii_columns, lemma_fitting};
use crate::numbers::{larger, minus, plus, smaller};
use crate::selection::lemma_trimmed_end;
use crate::style::{Modifier, Style};
use crate::table::{cell_text_columns, width_sum};
use crate::text::{plain_text, LineView, SpanView};
use crate::width::{chars_fitting, columns, is_ascii_text, is_narrow_text, text_columns};

verus! {

/// Differences and sums stop at the limits of a machine word; the smaller and the larger of two
/// numbers are what they are called.
pub proof fn law_numbers_stop_at_limits(a: usize, b: usize)
    ensures
        b <= a ==> minus(a, b) + b == a,
        b >= a ==> minus(a, b) == 0,
        a + b <= usize::MAX ==> plus(a, b) == a + b,
        a + b >= usize::MAX ==> plus(a, b) == usize::MAX,
        smaller(a, b) <= a && smaller(a, b) <= b && (smaller(a, b) == a || smaller(a, b) == b),
        larger(a, b) >= a && larger(a, b) >= b && (larger(a, b) == a || larger(a, b) == b),
{
}

proof fn lemma_digit(d: nat)
    requires
        d < 10,
    ensures
        '0' <= digit_char(d) <= '9',
        digit_char(d) as nat - '0' as nat == d,
{
}

/// A number in decimal is made of digits, has no zero at its front unless it is zero, and is read
/// as the number again.
pub proof fn law_decimal_is_read_back(n: nat)
    ensures
        all_digits(decimal_text(n)),
        digits_value(decimal_text(n)) == n,
        n > 0 ==> decimal_text(n)[0] != '0',
        n <= u32::MAX ==> number_u32(decimal_text(n)) == Some(n as u32),
    decreases n,
{
    lemma_digit(n % 10);
    if n < 10 {
        assert(decimal_text(n).drop_last() == Seq::<char>::empty());
        assert(digits_value(Seq::<char>::empty()) == 0);
    } else {
        law_decimal_is_read_back(n / 10);
        let front = decimal_text(n / 10);
        assert(decimal_text(n).drop_last() == front);
        assert(decimal_text(n)[0] == front[0]);
        assert forall|i: int| 0 <= i < decimal_text(n).len() implies '0' <= #[trigger] decimal_text(
            n,
        )[i] <= '9' by {
            if i < front.len() {
                assert(decimal_text(n)[i] == front[i]);
            }
        }
    }
    assert('0' <= decimal_text(n)[0] <= '9');
}

pub proof fn lemma_trimmed_start(text: Seq<char>)
    ensures
        trimmed_start(text).len() <= text.len(),
        trimmed_start(text) == text.skip(text.len() - trimmed_start(text).len()),
        trimmed_start(text).len() > 0 ==> !is_space(trimmed_start(text)[0]),
        forall|i: int|
            0 <= i < text.len() - trimmed_start(text).len() ==> is_space(#[trigger] text[i]),
    decreases text.len(),
{
    let rest = trimmed_start(text);
    if text.len() > 0 && is_space(text[0]) {
        lemma_trimmed_start(text.drop_first());
        assert(text.drop_first().skip(text.len() - 1 - rest.len()) =~= text.skip(
            text.len() - rest.len(),
        ));
        assert forall|i: int| 0 <= i < text.len() - rest.len() implies is_space(
            #[trigger] text[i],
        ) by {
            if i > 0 {
                assert(text.drop_first()[i - 1] == text[i]);
            }
        }
    } else {
        assert(text.skip(0) =~= text);
    }
}

/// A text is trimmed by taking away the white space at its ends, and nothing else: what is left is
/// a piece of it that neither begins nor ends with white space.
pub proof fn law_trimming_takes_white_space_away(text: Seq<char>)
    ensures
        ({
            let left = text.len() - trimmed_end(text).len();
            let front = trimmed_end(text).len() - trimmed(text).len();
            &&& 0 <= left && 0 <= front && front + trimmed(text).len() + left == text.len()
            &&& trimmed(text) == text.subrange(front, front + trimmed(text).len())
            &&& forall|i: int| 0 <= i < front ==> is_space(#[trigger] text[i])
            &&& forall|i: int|
                front + trimmed(text).len() <= i < text.len() ==> is_space(#[trigger] text[i])
            &&& trimmed(text).len() > 0 ==> !is_space(trimmed(text)[0]) && !is_space(
                trimmed(text).last(),
            )
        }),
{
    let ended = trimmed_end(text);
    lemma_trimmed_end(text);
    lemma_trimmed_start(ended);
    lemma_last_is_visible(text);
    let front = ended.len() - trimmed(text).len();
    assert(trimmed(text) =~= text.subrange(front, front + trimmed(text).len()));
    assert forall|i: int| 0 <= i < front implies is_space(#[trigger] text[i]) by {
        assert(ended[i] == text[i]);
    }
    assert forall|i: int| ended.len() <= i < text.len() implies is_space(#[trigger] text[i]) by {
        lemma_trailing(text, i);
        assert(is_trailing(text, i));
    }
}

proof fn lemma_last_is_visible(text: Seq<char>)
    ensures
        trimmed_end(text).len() > 0 ==> !is_space(trimmed_end(text).last()),
    decreases text.len(),
{
    if text.len() > 0 && is_space(text.last()) {
        lemma_last_is_visible(text.drop_last());
    }
}

/// White space is what Unicode takes for it: among ASCII, the blank and the control characters from
/// tab to carriage return.
pub proof fn law_white_space_of_ascii(c: char)
    requires
        (c as u32) < 0x80,
    ensures
        is_space(c) <==> c == ' ' || '\t' <= c <= '\r',
{
}

/// Attributes add up: a set that is put together of two has an attribute exactly if one of them has.
pub proof fn law_attributes_add_up(a: Modifier, b: Modifier)
    ensures
        a.or(b).bold == (a.bold || b.bold),
        a.or(b).dim == (a.dim || b.dim),
        a.or(b).italic == (a.italic || b.italic),
        a.or(b).underlined == (a.underlined || b.underlined),
        a.or(b).reversed == (a.reversed || b.reversed),
        a.or(b).crossed_out == (a.crossed_out || b.crossed_out),
        a.or(b) == b.or(a),
        a.or(Modifier::none()) == a,
        Modifier::none().or(a) == a,
{
}

/// A style that is laid over another decides the colors that it has, and no others; the attributes
/// of both hold. The plain style changes nothing.
pub proof fn law_styles_are_laid_over_each_other(base: Style, top: Style)
    ensures
        top.fg is Some ==> base.overlaid(top).fg == top.fg,
        top.fg is None ==> base.overlaid(top).fg == base.fg,
        top.bg is Some ==> base.overlaid(top).bg == top.bg,
        top.bg is None ==> base.overlaid(top).bg == base.bg,
        base.overlaid(top).add_modifier == base.add_modifier.or(top.add_modifier),
        base.overlaid(Style::plain()) == base,
        Style::plain().overlaid(top) == top,
        base.overlaid(top).overlaid(top) == base.overlaid(top),
        base.with(top.add_modifier).fg == base.fg && base.with(top.add_modifier).bg == base.bg,
        base.with(top.add_modifier).add_modifier == base.add_modifier.or(top.add_modifier),
        Style::plain().fg is None && Style::plain().bg is None,
{
}

/// A text that is taken apart at a character has a piece for each occurrence and one more, and no
/// piece holds the character.
pub proof fn law_pieces_hold_no_separator(text: Seq<char>, separator: char, i: int)
    requires
        0 <= i < split_text(text, separator).len(),
    ensures
        !split_text(text, separator)[i].contains(separator),
    decreases text.len(),
{
    if text.len() > 0 {
        let before = split_text(text.drop_last(), separator);
        lemma_pieces(text.drop_last(), separator);
        if text.last() != separator {
            if i < before.len() - 1 {
                law_pieces_hold_no_separator(text.drop_last(), separator, i);
                assert(split_text(text, separator)[i] == before[i]);
            } else {
                law_pieces_hold_no_separator(text.drop_last(), separator, before.len() - 1);
                let piece = before.last().push(text.last());
                assert(split_text(text, separator)[i] == piece);
                if piece.contains(separator) {
                    let k = choose|k: int| 0 <= k < piece.len() && piece[k] == separator;
                    assert(before.last()[k] == separator);
                }
            }
        } else if i < before.len() {
            law_pieces_hold_no_separator(text.drop_last(), separator, i);
            assert(split_text(text, separator)[i] == before[i]);
        }
    }
}

/// How often a character occurs in a text.
pub open spec fn occurrences(text: Seq<char>, c: char) -> nat {
    text.filter(|d: char| d == c).len()
}

proof fn lemma_pieces(text: Seq<char>, separator: char)
    ensures
        split_text(text, separator).len() == occurrences(text, separator) + 1,
    decreases text.len(),
{
    reveal(Seq::filter);
    if text.len() > 0 {
        lemma_pieces(text.drop_last(), separator);
    }
}

/// A text has one piece more than separators.
pub proof fn law_pieces_are_counted(text: Seq<char>, separator: char)
    ensures
        split_text(text, separator).len() == occurrences(text, separator) + 1,
{
    lemma_pieces(text, separator);
}

/// A line says what its spans say, one after another.
pub proof fn law_lines_say_what_their_spans_say(a: Seq<SpanView>, b: Seq<SpanView>)
    ensures
        plain_text(a + b) == plain_text(a) + plain_text(b),
        b.len() == 1 ==> plain_text(b) == b[0].text,
    decreases b.len(),
{
    if b.len() == 0 {
        assert(a + b =~= a);
        assert(plain_text(a) + plain_text(b) =~= plain_text(a));
    } else {
        law_lines_say_what_their_spans_say(a, b.drop_last());
        assert((a + b).drop_last() =~= a + b.drop_last());
        assert(plain_text(a) + (plain_text(b.drop_last()) + b.last().text) =~= (plain_text(a)
            + plain_text(b.drop_last())) + b.last().text);
        if b.len() == 1 {
            assert(plain_text(b.drop_last()) =~= Seq::<char>::empty());
            assert(plain_text(b) =~= b[0].text);
        }
    }
}

/// The cells of a table are as wide as their spans are together.
pub proof fn law_cells_are_as_wide_as_their_spans(a: LineView, b: LineView)
    ensures
        width_sum(a + b) == width_sum(a) + width_sum(b),
        b.len() == 1 ==> width_sum(b) == text_columns(b[0].text),
        width_sum(a) <= usize::MAX ==> cell_text_columns(a) == width_sum(a),
    decreases b.len(),
{
    if b.len() == 0 {
        assert(a + b =~= a);
    } else {
        law_cells_are_as_wide_as_their_spans(a, b.drop_last());
        assert((a + b).drop_last() =~= a + b.drop_last());
        if b.len() == 1 {
            assert(width_sum(b.drop_last()) == 0);
        }
    }
}

/// Printable ASCII takes a column for each character, in a text and under the cursor.
pub proof fn law_ascii_takes_a_column_each(text: Seq<char>)
    requires
        is_ascii_text(text),
        text.len() <= usize::MAX,
    ensures
        text_columns(text) == text.len(),
        columns(text) == text.len(),
{
    lemma_ascii_columns(text, text.len() as int);
    assert(text.take(text.len() as int) =~= text);
    assert(is_narrow_text(text));
}

/// As many characters stand before a column as fit in it: they do, and one more does not.
pub proof fn law_columns_hold_what_fits(text: Seq<char>, column: int, k: int)
    requires
        0 <= column,
        0 <= k <= text.len(),
    ensures
        k <= chars_fitting(text, column) <==> columns(text.take(k)) <= column,
        0 <= chars_fitting(text, column) <= text.len(),
{
    lemma_fitting(text, column, k);
}

/// A text that is put together of three holds the one in the middle, and begins with the first; and
/// only such texts do.
pub proof fn law_texts_hold_their_pieces(
    before: Seq<char>,
    piece: Seq<char>,
    after: Seq<char>,
    text: Seq<char>,
)
    ensures
        contains_text(before + piece + after, piece),
        has_prefix(piece + after, piece),
        has_prefix(text, piece) ==> text == piece + text.skip(piece.len() as int),
        contains_text(text, piece) ==> exists|at: int|
            0 <= at && at + piece.len() <= text.len() && text == #[trigger] text.take(at) + piece
                + text.skip(at + piece.len()),
{
    let whole = before + piece + after;
    assert(whole.subrange(before.len() as int, (before.len() + piece.len()) as int) =~= piece);
    assert(stands_at(whole, piece, before.len() as int));
    assert((piece + after).take(piece.len() as int) =~= piece);
    if has_prefix(text, piece) {
        assert(text =~= text.take(piece.len() as int) + text.skip(piece.len() as int));
    }
    if contains_text(text, piece) {
        let at = choose|at: int| stands_at(text, piece, at);
        assert(text =~= text.take(at) + text.subrange(at, at + piece.len()) + text.skip(
            at + piece.len(),
        ));
    }
}

} // verus!
