//! Text seen as a sequence of characters: collecting, cutting, trimming and printing.
use vstd::prelude::*;

verus! {

/// `String::push` appends one character.
pub assume_specification[ String::push ](text: &mut String, c: char)
    ensures
        final(text)@ == old(text)@.push(c),
;

/// `String::pop` removes the last character and hands it back; an empty string stays empty.
pub assume_specification[ String::pop ](text: &mut String) -> (last: Option<char>)
    ensures
        old(text)@.len() == 0 ==> last is None && final(text)@ == old(text)@,
        old(text)@.len() > 0 ==> last == Some(old(text)@.last()) && final(text)@ == old(
            text,
        )@.drop_last(),
;

/// Whether Unicode gives a character the property `White_Space`.
pub open spec fn is_space(c: char) -> bool {
    let code = c as u32;
    ||| 0x9 <= code <= 0xd
    ||| code == 0x20
    ||| code == 0x85
    ||| code == 0xa0
    ||| code == 0x1680
    ||| 0x2000 <= code <= 0x200a
    ||| 0x2028 <= code <= 0x2029
    ||| code == 0x202f
    ||| code == 0x205f
    ||| code == 0x3000
}

/// `char::is_whitespace` is true exactly of the characters with the Unicode property
/// `White_Space`.
pub assume_specification[ char::is_whitespace ](c: char) -> (answer: bool)
    ensures
        answer == is_space(c),
;

/// Whether Unicode counts a character as alphabetic or numeric.
pub uninterp spec fn is_letter_or_number(c: char) -> bool;

/// `char::is_alphanumeric` answers by the character alone.
pub assume_specification[ char::is_alphanumeric ](c: char) -> (answer: bool)
    ensures
        answer == is_letter_or_number(c),
;

/// The characters of `text`, in order.
pub fn chars_of(text: &str) -> (chars: Vec<char>)
    ensures
        chars@ == text@,
{
    let mut chars: Vec<char> = Vec::new();
    for c in it: text.chars()
        invariant
            it.seq() == text@,
            chars@ == text@.take(it.index() as int),
    {
        chars.push(c);
        assert(text@.take(it.index() + 1) == text@.take(it.index() as int).push(c));
    }
    assert(text@.take(text@.len() as int) == text@);
    chars
}

/// The characters from `start` up to `end`, as a string.
pub fn string_of(chars: &Vec<char>, start: usize, end: usize) -> (text: String)
    requires
        start <= end <= chars@.len(),
    ensures
        text@ == chars@.subrange(start as int, end as int),
{
    let mut text = String::new();
    let mut i: usize = start;
    while i < end
        invariant
            start <= i <= end <= chars@.len(),
            text@ == chars@.subrange(start as int, i as int),
        decreases end - i,
    {
        text.push(chars[i]);
        assert(chars@.subrange(start as int, i + 1) == chars@.subrange(start as int, i as int).push(
            chars@[i as int],
        ));
        i += 1;
    }
    text
}

/// A copy of `text` as an owned string.
pub fn owned(text: &str) -> (copy: String)
    ensures
        copy@ == text@,
{
    String::from_str(text)
}

/// `text` without its trailing white space.
pub open spec fn trimmed_end(text: Seq<char>) -> Seq<char>
    decreases text.len(),
{
    if text.len() > 0 && is_space(text.last()) {
        trimmed_end(text.drop_last())
    } else {
        text
    }
}

/// `text` without its leading white space.
pub open spec fn trimmed_start(text: Seq<char>) -> Seq<char>
    decreases text.len(),
{
    if text.len() > 0 && is_space(text[0]) {
        trimmed_start(text.drop_first())
    } else {
        text
    }
}

/// `text` without white space at either end.
pub open spec fn trimmed(text: Seq<char>) -> Seq<char> {
    trimmed_start(trimmed_end(text))
}

/// How many characters remain once trailing white space is cut off.
pub fn visible_len(chars: &Vec<char>) -> (len: usize)
    ensures
        len <= chars@.len(),
        chars@.take(len as int) == trimmed_end(chars@),
{
    let mut len: usize = chars.len();
    assert(chars@.take(len as int) == chars@);
    while len > 0 && chars[len - 1].is_whitespace()
        invariant
            len <= chars@.len(),
            trimmed_end(chars@.take(len as int)) == trimmed_end(chars@),
        decreases len,
    {
        assert(chars@.take(len as int).drop_last() == chars@.take(len - 1));
        len -= 1;
    }
    len
}

/// `text` without white space at either end.
pub fn trim(text: &str) -> (core: String)
    ensures
        core@ == trimmed(text@),
{
    let chars = chars_of(text);
    let end = visible_len(&chars);
    let ghost kept = chars@.take(end as int);
    let mut start: usize = 0;
    assert(kept.skip(0) == kept);
    while start < end && chars[start].is_whitespace()
        invariant
            start <= end <= chars@.len(),
            kept == chars@.take(end as int),
            trimmed_start(kept.skip(start as int)) == trimmed_start(kept),
        decreases end - start,
    {
        assert(kept.skip(start as int)[0] == chars@[start as int]);
        assert(kept.skip(start as int).drop_first() == kept.skip(start + 1));
        start += 1;
    }
    assert(chars@.subrange(start as int, end as int) == kept.skip(start as int));
    proof {
        if start < end {
            assert(kept.skip(start as int)[0] == chars@[start as int]);
        }
    }
    string_of(&chars, start, end)
}

/// `unit` written `count` times in a row.
pub open spec fn repeated(unit: Seq<char>, count: nat) -> Seq<char>
    decreases count,
{
    if count == 0 {
        Seq::empty()
    } else {
        repeated(unit, (count - 1) as nat) + unit
    }
}

/// `unit` written `count` times in a row.
pub fn repeat(unit: &str, count: usize) -> (text: String)
    ensures
        text@ == repeated(unit@, count as nat),
{
    let mut text = String::new();
    let mut done: usize = 0;
    while done < count
        invariant
            done <= count,
            text@ == repeated(unit@, done as nat),
        decreases count - done,
    {
        text.append(unit);
        done += 1;
    }
    text
}

/// The digit `d` as a character.
pub open spec fn digit_char(d: nat) -> char {
    ('0' as u32 + d) as char
}

/// `n` in decimal, without leading zeros.
pub open spec fn decimal_text(n: nat) -> Seq<char>
    decreases n,
{
    if n < 10 {
        seq![digit_char(n)]
    } else {
        decimal_text(n / 10).push(digit_char(n % 10))
    }
}

/// The character of a single digit.
fn digit(d: u64) -> (c: char)
    requires
        d < 10,
    ensures
        c == digit_char(d as nat),
{
    if d == 0 {
        '0'
    } else if d == 1 {
        '1'
    } else if d == 2 {
        '2'
    } else if d == 3 {
        '3'
    } else if d == 4 {
        '4'
    } else if d == 5 {
        '5'
    } else if d == 6 {
        '6'
    } else if d == 7 {
        '7'
    } else if d == 8 {
        '8'
    } else {
        '9'
    }
}

/// `n` in decimal, without leading zeros.
pub fn decimal(n: u64) -> (text: String)
    ensures
        text@ == decimal_text(n as nat),
    decreases n,
{
    if n < 10 {
        let mut text = String::new();
        text.push(digit(n));
        assert(text@ == seq![digit_char(n as nat)]);
        text
    } else {
        let mut text = decimal(n / 10);
        text.push(digit(n % 10));
        text
    }
}

/// The value of a run of decimal digits.
pub open spec fn digits_value(text: Seq<char>) -> nat
    decreases text.len(),
{
    if text.len() == 0 {
        0
    } else {
        digits_value(text.drop_last()) * 10 + (text.last() as nat - '0' as nat) as nat
    }
}

/// Whether `text` is one or more decimal digits.
pub open spec fn all_digits(text: Seq<char>) -> bool {
    text.len() > 0 && forall|i: int| 0 <= i < text.len() ==> '0' <= #[trigger] text[i] <= '9'
}

/// The digits of `text`: what follows a leading plus sign, if there is one.
pub open spec fn unsigned_digits(text: Seq<char>) -> Seq<char> {
    if text.len() > 0 && text[0] == '+' {
        text.drop_first()
    } else {
        text
    }
}

/// The number that `text` writes in decimal, with or without a plus sign, if it fits in 32 bits.
pub open spec fn number_u32(text: Seq<char>) -> Option<u32> {
    let digits = unsigned_digits(text);
    if all_digits(digits) && digits_value(digits) <= u32::MAX {
        Some(digits_value(digits) as u32)
    } else {
        None
    }
}

proof fn lemma_prefix_value(text: Seq<char>, upto: int)
    requires
        0 <= upto <= text.len(),
    ensures
        digits_value(text.take(upto)) <= digits_value(text),
    decreases text.len() - upto,
{
    if upto == text.len() {
        assert(text.take(upto) == text);
    } else {
        lemma_prefix_value(text, upto + 1);
        assert(text.take(upto + 1).drop_last() == text.take(upto));
    }
}

/// The number that `text` writes in decimal, with or without a plus sign, if it fits in 32 bits.
pub fn parse_u32(text: &str) -> (number: Option<u32>)
    ensures
        number == number_u32(text@),
{
    let chars = chars_of(text);
    let start: usize = if chars.len() > 0 && chars[0] == '+' {
        1
    } else {
        0
    };
    let ghost digits = unsigned_digits(text@);
    assert(digits == chars@.skip(start as int));
    if start >= chars.len() {
        return None;
    }
    let mut value: u64 = 0;
    let mut i: usize = start;
    assert(digits.take(0) == Seq::<char>::empty());
    while i < chars.len()
        invariant
            start <= i <= chars@.len(),
            digits == chars@.skip(start as int),
            digits == unsigned_digits(text@),
            value == digits_value(digits.take(i - start)),
            value <= u32::MAX,
            forall|k: int| 0 <= k < i - start ==> '0' <= #[trigger] digits[k] <= '9',
        decreases chars.len() - i,
    {
        let c = chars[i];
        assert(digits[i - start] == c);
        if c < '0' || c > '9' {
            return None;
        }
        let d = c as u32 - '0' as u32;
        assert(digits.take(i + 1 - start).drop_last() == digits.take(i - start));
        value = value * 10 + d as u64;
        if value > u32::MAX as u64 {
            proof {
                lemma_prefix_value(digits, i + 1 - start);
            }
            return None;
        }
        i += 1;
    }
    assert(digits.take(i - start) == digits);
    Some(value as u32)
}

/// The pieces of `text` between occurrences of `separator`; there is always at least one.
pub open spec fn split_text(text: Seq<char>, separator: char) -> Seq<Seq<char>>
    decreases text.len(),
{
    if text.len() == 0 {
        seq![Seq::empty()]
    } else {
        let before = split_text(text.drop_last(), separator);
        if text.last() == separator {
            before.push(Seq::empty())
        } else {
            before.drop_last().push(before.last().push(text.last()))
        }
    }
}

/// The views of a run of strings.
pub open spec fn strings_view(strings: Seq<String>) -> Seq<Seq<char>> {
    Seq::new(strings.len(), |i: int| strings[i]@)
}

pub broadcast proof fn lemma_strings_push(strings: Seq<String>, text: String)
    ensures
        #[trigger] strings_view(strings.push(text)) == strings_view(strings).push(text@),
{
    assert(strings_view(strings.push(text)) =~= strings_view(strings).push(text@));
}

/// The pieces of `text` between occurrences of `separator`; there is always at least one.
pub fn split(text: &str, separator: char) -> (pieces: Vec<String>)
    ensures
        strings_view(pieces@) == split_text(text@, separator),
{
    broadcast use lemma_strings_push;

    let chars = chars_of(text);
    let mut pieces: Vec<String> = Vec::new();
    let mut piece = String::new();
    let mut i: usize = 0;
    assert(text@.take(0) == Seq::<char>::empty());
    assert(strings_view(pieces@).push(piece@) == seq![Seq::<char>::empty()]);
    while i < chars.len()
        invariant
            i <= chars@.len(),
            chars@ == text@,
            strings_view(pieces@).push(piece@) == split_text(text@.take(i as int), separator),
        decreases chars.len() - i,
    {
        let c = chars[i];
        assert(text@.take(i + 1).drop_last() == text@.take(i as int));
        let ghost before = strings_view(pieces@).push(piece@);
        assert(before.drop_last() == strings_view(pieces@));
        if c == separator {
            pieces.push(piece);
            piece = String::new();
        } else {
            piece.push(c);
        }
        i += 1;
    }
    assert(text@.take(i as int) == text@);
    pieces.push(piece);
    pieces
}

/// Whether `text` begins with `prefix`.
pub open spec fn has_prefix(text: Seq<char>, prefix: Seq<char>) -> bool {
    prefix.len() <= text.len() && text.take(prefix.len() as int) == prefix
}

/// Whether `needle` stands in `text` at position `at`.
pub open spec fn stands_at(text: Seq<char>, needle: Seq<char>, at: int) -> bool {
    0 <= at && at + needle.len() <= text.len() && text.subrange(at, at + needle.len()) == needle
}

/// Whether `needle` stands somewhere in `text`.
pub open spec fn contains_text(text: Seq<char>, needle: Seq<char>) -> bool {
    exists|at: int| stands_at(text, needle, at)
}

/// Whether `needle` stands in `chars` at position `at`.
fn matches_at(chars: &Vec<char>, needle: &Vec<char>, at: usize) -> (answer: bool)
    requires
        at + needle@.len() <= chars@.len(),
    ensures
        answer == stands_at(chars@, needle@, at as int),
{
    let len = chars.len();
    let mut i: usize = 0;
    while i < needle.len()
        invariant
            i <= needle@.len(),
            len == chars@.len(),
            at + needle@.len() <= len,
            forall|k: int| 0 <= k < i ==> chars@[at + k] == #[trigger] needle@[k],
        decreases needle.len() - i,
    {
        if chars[at + i] != needle[i] {
            assert(chars@.subrange(at as int, at + needle@.len())[i as int] == chars@[at + i]);
            return false;
        }
        i += 1;
    }
    assert(chars@.subrange(at as int, at + needle@.len()) =~= needle@);
    true
}

/// Whether `text` begins with `prefix`.
pub fn starts_with(text: &Vec<char>, prefix: &str) -> (answer: bool)
    ensures
        answer == has_prefix(text@, prefix@),
{
    let wanted = chars_of(prefix);
    if wanted.len() > text.len() {
        return false;
    }
    assert(text@.subrange(0, wanted@.len() as int) == text@.take(wanted@.len() as int));
    matches_at(text, &wanted, 0)
}

/// Whether `needle` stands somewhere in `text`.
pub fn contains(text: &Vec<char>, needle: &str) -> (answer: bool)
    ensures
        answer == contains_text(text@, needle@),
{
    let wanted = chars_of(needle);
    if wanted.len() > text.len() {
        return false;
    }
    let last = text.len() - wanted.len();
    let mut at: usize = 0;
    loop
        invariant
            at <= last,
            wanted@ == needle@,
            last == text@.len() - wanted@.len(),
            forall|k: int| 0 <= k < at ==> !stands_at(text@, needle@, k),
        decreases last - at,
    {
        if matches_at(text, &wanted, at) {
            return true;
        }
        if at == last {
            return false;
        }
        at += 1;
    }
}

/// A text without the white space at its end.
pub fn trim_end(text: &str) -> (visible: String)
    ensures
        visible@ == trimmed_end(text@),
{
    let chars = chars_of(text);
    let len = visible_len(&chars);
    assert(chars@.subrange(0, len as int) == chars@.take(len as int));
    string_of(&chars, 0, len)
}

/// Whether two texts are equal.
pub fn same_text(a: &str, b: &str) -> (answer: bool)
    ensures
        answer == (a@ == b@),
{
    let left = chars_of(a);
    let right = chars_of(b);
    if left.len() != right.len() {
        return false;
    }
    let mut i: usize = 0;
    while i < left.len()
        invariant
            i <= left@.len(),
            left@ == a@,
            right@ == b@,
            left@.len() == right@.len(),
            forall|k: int| 0 <= k < i ==> left@[k] == right@[k],
        decreases left.len() - i,
    {
        if left[i] != right[i] {
            return false;
        }
        i += 1;
    }
    assert(a@ =~= b@);
    true
}

} // verus!
