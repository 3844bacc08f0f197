//! Strings as the rest of the library needs them: equality, order, trimming,
//! suffixes and decimal numbers, each stated over the characters of the string.

use vstd::prelude::*;
use vstd::string::*;
use vstd::utf8::*;

verus! {

broadcast use vstd::utf8::group_utf8_lib;

/// The characters of an optional string.
pub open spec fn text_opt(value: Option<String>) -> Option<Seq<char>> {
    match value {
        Some(text) => Some(text@),
        None => None,
    }
}

/// The characters of each string of a list.
pub open spec fn text_seq(values: Seq<String>) -> Seq<Seq<char>> {
    values.map_values(|text: String| text@)
}

/// Whether two strings hold the same characters.
pub fn text_eq(left: &str, right: &str) -> (same: bool)
    ensures
        same == (left@ == right@),
{
    let a: &[u8] = left.as_bytes();
    let b: &[u8] = right.as_bytes();
    proof {
        encode_utf8_decode_utf8(left@);
        encode_utf8_decode_utf8(right@);
    }
    if a.len() != b.len() {
        return false;
    }
    let mut i: usize = 0;
    while i < a.len()
        invariant
            i <= a@.len(),
            a@.len() == b@.len(),
            a@ == encode_utf8(left@),
            b@ == encode_utf8(right@),
            forall|j: int| 0 <= j < i ==> a@[j] == b@[j],
        decreases a@.len() - i,
    {
        if a[i] != b[i] {
            return false;
        }
        i = i + 1;
    }
    assert(a@ =~= b@);
    true
}

/// Whether an optional string is present and holds the characters of `text`.
pub fn text_opt_is(value: &Option<String>, text: &str) -> (same: bool)
    ensures
        same == (text_opt(*value) == Some(text@)),
{
    match value {
        Some(found) => text_eq(found.as_str(), text),
        None => false,
    }
}

/// The order of byte strings: the first difference decides, and a prefix comes
/// before what it begins.
pub open spec fn bytes_before(left: Seq<u8>, right: Seq<u8>) -> bool
    decreases left.len(),
{
    if right.len() == 0 {
        false
    } else if left.len() == 0 {
        true
    } else if left[0] != right[0] {
        left[0] < right[0]
    } else {
        bytes_before(left.drop_first(), right.drop_first())
    }
}

/// The order of strings: that of their UTF-8 bytes.
pub open spec fn text_before(left: Seq<char>, right: Seq<char>) -> bool {
    bytes_before(encode_utf8(left), encode_utf8(right))
}

/// No byte string comes before itself.
pub proof fn bytes_before_irreflexive(a: Seq<u8>)
    ensures
        !bytes_before(a, a),
    decreases a.len(),
{
    if a.len() > 0 {
        bytes_before_irreflexive(a.drop_first());
    }
}

/// The order of byte strings is transitive.
pub proof fn bytes_before_transitive(a: Seq<u8>, b: Seq<u8>, c: Seq<u8>)
    requires
        bytes_before(a, b),
        bytes_before(b, c),
    ensures
        bytes_before(a, c),
    decreases a.len(),
{
    if a.len() > 0 && a[0] == b[0] && b[0] == c[0] {
        bytes_before_transitive(a.drop_first(), b.drop_first(), c.drop_first());
    }
}

/// Of two different byte strings one comes before the other.
pub proof fn bytes_before_total(a: Seq<u8>, b: Seq<u8>)
    requires
        a != b,
    ensures
        bytes_before(a, b) || bytes_before(b, a),
    decreases a.len(),
{
    if a.len() == 0 {
        if b.len() == 0 {
            assert(a =~= b);
        }
    } else if b.len() > 0 && a[0] == b[0] {
        if a.drop_first() == b.drop_first() {
            assert(a =~= seq![a[0]] + a.drop_first());
            assert(b =~= seq![b[0]] + b.drop_first());
        }
        bytes_before_total(a.drop_first(), b.drop_first());
    }
}

/// The order of strings is a strict total order.
pub proof fn text_before_is_a_strict_total_order(a: Seq<char>, b: Seq<char>, c: Seq<char>)
    ensures
        !text_before(a, a),
        text_before(a, b) && text_before(b, c) ==> text_before(a, c),
        a == b || text_before(a, b) || text_before(b, a),
{
    bytes_before_irreflexive(encode_utf8(a));
    if text_before(a, b) && text_before(b, c) {
        bytes_before_transitive(encode_utf8(a), encode_utf8(b), encode_utf8(c));
    }
    if a != b {
        encode_utf8_decode_utf8(a);
        encode_utf8_decode_utf8(b);
        bytes_before_total(encode_utf8(a), encode_utf8(b));
    }
}

/// Whether `left` comes before `right` in the order of strings.
pub fn text_is_before(left: &str, right: &str) -> (before: bool)
    ensures
        before == text_before(left@, right@),
{
    let a: &[u8] = left.as_bytes();
    let b: &[u8] = right.as_bytes();
    let mut i: usize = 0;
    assert(a@.skip(0) =~= a@);
    assert(b@.skip(0) =~= b@);
    while i < a.len() && i < b.len() && a[i] == b[i]
        invariant
            i <= a@.len(),
            i <= b@.len(),
            bytes_before(a@, b@) == bytes_before(a@.skip(i as int), b@.skip(i as int)),
        decreases a@.len() - i,
    {
        assert(a@.skip(i as int).drop_first() =~= a@.skip(i + 1));
        assert(b@.skip(i as int).drop_first() =~= b@.skip(i + 1));
        i = i + 1;
    }
    i < b.len() && (i >= a.len() || a[i] < b[i])
}

/// The characters of a string, in order.
pub fn chars_of(text: &str) -> (chars: Vec<char>)
    ensures
        chars@ == text@,
{
    let mut chars: Vec<char> = Vec::new();
    for c in it: text.chars()
        invariant
            it.seq() == text@,
            chars@ == text@.take(it.index()),
    {
        chars.push(c);
    }
    assert(text@.take(text@.len() as int) =~= text@);
    chars
}

/// `String::from_utf8` makes a string of bytes; the claim is that it does so exactly
/// where they are valid UTF-8, and that the string holds the characters they encode.
#[verifier::external_body]
pub(crate) fn string_from_utf8(bytes: Vec<u8>) -> (text: Option<String>)
    ensures
        text is Some <==> valid_utf8(bytes@),
        text matches Some(string) ==> string@ == decode_utf8(bytes@),
{
    String::from_utf8(bytes).ok()
}

/// The characters with the Unicode property White_Space.
pub open spec fn is_white_space(c: char) -> bool {
    ||| '\u{9}' <= c <= '\u{d}'
    ||| c == ' '
    ||| c == '\u{85}'
    ||| c == '\u{a0}'
    ||| c == '\u{1680}'
    ||| '\u{2000}' <= c <= '\u{200a}'
    ||| c == '\u{2028}'
    ||| c == '\u{2029}'
    ||| c == '\u{202f}'
    ||| c == '\u{205f}'
    ||| c == '\u{3000}'
}

/// The characters of the Unicode general category Cc.
pub open spec fn is_control_code(c: char) -> bool {
    c <= '\u{1f}' || '\u{7f}' <= c <= '\u{9f}'
}

/// `char::is_whitespace` tells whether a character has the Unicode property
/// White_Space; the claim is that its members are those of `is_white_space`.
pub assume_specification[ char::is_whitespace ](c: char) -> (white: bool)
    ensures
        white == is_white_space(c),
;

/// `char::is_control` tells whether a character has the Unicode general category
/// Cc; the claim is that its members are those of `is_control_code`.
pub assume_specification[ char::is_control ](c: char) -> (control: bool)
    ensures
        control == is_control_code(c),
;

/// `text` without the white space that it begins with.
pub open spec fn trimmed_start(text: Seq<char>) -> Seq<char>
    decreases text.len(),
{
    if text.len() > 0 && is_white_space(text[0]) {
        trimmed_start(text.drop_first())
    } else {
        text
    }
}

/// `text` without the white space that it ends with.
pub open spec fn trimmed_end(text: Seq<char>) -> Seq<char>
    decreases text.len(),
{
    if text.len() > 0 && is_white_space(text.last()) {
        trimmed_end(text.drop_last())
    } else {
        text
    }
}

/// `text` without the white space around it.
pub open spec fn trimmed(text: Seq<char>) -> Seq<char> {
    trimmed_end(trimmed_start(text))
}

/// The string without the white space around it.
pub fn trim_text(text: &str) -> (inner: &str)
    ensures
        inner@ == trimmed(text@),
{
    let chars: Vec<char> = chars_of(text);
    let mut from: usize = 0;
    assert(text@.skip(0) =~= text@);
    while from < chars.len() && chars[from].is_whitespace()
        invariant
            chars@ == text@,
            from <= chars@.len(),
            trimmed_start(text@) == trimmed_start(text@.skip(from as int)),
        decreases chars@.len() - from,
    {
        assert(text@.skip(from as int).drop_first() =~= text@.skip(from + 1));
        from = from + 1;
    }
    let ghost body = text@.skip(from as int);
    assert(trimmed_start(text@) == body);
    let mut to: usize = chars.len();
    assert(body.take(to - from) =~= body);
    while to > from && chars[to - 1].is_whitespace()
        invariant
            chars@ == text@,
            from <= to <= chars@.len(),
            body == text@.skip(from as int),
            trimmed_end(body) == trimmed_end(body.take(to - from)),
        decreases to,
    {
        assert(body.take(to - from).last() == chars@[to - 1]);
        assert(body.take(to - from).drop_last() =~= body.take(to - 1 - from));
        to = to - 1;
    }
    assert(body.take(to - from) =~= text@.subrange(from as int, to as int));
    assert(to > from ==> body.take(to - from).last() == chars@[to - 1]);
    text.substring_char(from, to)
}

/// The string without `suffix` at its end, where it ends so.
pub fn strip_text_suffix<'a>(text: &'a str, suffix: &str) -> (stem: Option<&'a str>)
    ensures
        stem is Some <==> suffix@.is_suffix_of(text@),
        stem matches Some(rest) ==> rest@ + suffix@ == text@,
{
    let chars: Vec<char> = chars_of(text);
    let tail: Vec<char> = chars_of(suffix);
    if tail.len() > chars.len() {
        return None;
    }
    let cut: usize = chars.len() - tail.len();
    let mut i: usize = 0;
    while i < tail.len()
        invariant
            chars@ == text@,
            tail@ == suffix@,
            cut + tail.len() == chars.len(),
            i <= tail@.len(),
            forall|j: int| 0 <= j < i ==> tail@[j] == chars@[cut + j],
        decreases tail@.len() - i,
    {
        if tail[i] != chars[cut + i] {
            assert(suffix@[i as int] != text@.subrange(cut as int, text@.len() as int)[i as int]);
            return None;
        }
        i = i + 1;
    }
    assert(suffix@ =~= text@.subrange(cut as int, text@.len() as int));
    assert(text@.subrange(0, cut as int) + suffix@ =~= text@);
    Some(text.substring_char(0, cut))
}

/// Whether `c` is one of the digits 0 to 9.
pub open spec fn is_digit(c: char) -> bool {
    '0' <= c <= '9'
}

/// Whether `text` is one or more digits.
pub open spec fn is_digits(text: Seq<char>) -> bool {
    text.len() > 0 && forall|i: int| 0 <= i < text.len() ==> is_digit(#[trigger] text[i])
}

/// The number that the digits of `text` write in base ten.
pub open spec fn digits_value(text: Seq<char>) -> int
    decreases text.len(),
{
    if text.len() == 0 {
        0
    } else {
        10 * digits_value(text.drop_last()) + (text.last() as int - '0' as int)
    }
}

/// The integer that `text` writes: digits behind at most one sign, and nothing else.
pub open spec fn integer_of(text: Seq<char>) -> Option<int> {
    if is_digits(text) {
        Some(digits_value(text))
    } else if text.len() > 0 && text[0] == '+' && is_digits(text.drop_first()) {
        Some(digits_value(text.drop_first()))
    } else if text.len() > 0 && text[0] == '-' && is_digits(text.drop_first()) {
        Some(-digits_value(text.drop_first()))
    } else {
        None
    }
}

/// The integer that `text` writes, where it lies between `low` and `high`.
pub open spec fn integer_within(text: Seq<char>, low: int, high: int) -> Option<int> {
    match integer_of(text) {
        Some(value) if low <= value <= high => Some(value),
        _ => None,
    }
}

proof fn lemma_digits_value_grows(text: Seq<char>, count: int)
    requires
        is_digits(text),
        0 <= count <= text.len(),
    ensures
        0 <= digits_value(text.take(count)) <= digits_value(text),
    decreases text.len(),
{
    if count == text.len() {
        assert(text.take(count) =~= text);
        if text.len() > 1 {
            lemma_digits_value_grows(text.drop_last(), text.len() - 1);
            assert(text.drop_last().take(text.len() - 1) =~= text.drop_last());
        } else {
            assert(text.drop_last() =~= Seq::<char>::empty());
            assert(is_digit(text[0]));
        }
        assert(is_digit(text.last()));
    } else if text.len() == 1 {
        assert(text.take(count) =~= Seq::<char>::empty());
        assert(text.drop_last() =~= Seq::<char>::empty());
        assert(is_digit(text[0]));
    } else {
        lemma_digits_value_grows(text.drop_last(), count);
        assert(text.drop_last().take(count) =~= text.take(count));
        assert(is_digit(text.last()));
    }
}

/// The number that the characters from `start` on write as digits, where it fits.
fn digits_from(chars: &Vec<char>, start: usize) -> (value: Option<u64>)
    requires
        start <= chars@.len(),
    ensures
        value == (if is_digits(chars@.skip(start as int)) && digits_value(
            chars@.skip(start as int),
        ) <= u64::MAX {
            Some(digits_value(chars@.skip(start as int)) as u64)
        } else {
            None
        }),
{
    let ghost text = chars@.skip(start as int);
    if start == chars.len() {
        return None;
    }
    let mut value: u64 = 0;
    let mut i: usize = start;
    assert(text.take(0) =~= Seq::<char>::empty());
    while i < chars.len()
        invariant
            text == chars@.skip(start as int),
            start <= i <= chars@.len(),
            value == digits_value(text.take(i - start)),
            forall|j: int| 0 <= j < i - start ==> is_digit(#[trigger] text[j]),
        decreases chars@.len() - i,
    {
        let c: char = chars[i];
        assert(text[i - start] == c);
        if c < '0' || c > '9' {
            return None;
        }
        let digit: u64 = (c as u32 - '0' as u32) as u64;
        assert(text.take(i + 1 - start).drop_last() =~= text.take(i - start));
        proof {
            if is_digits(text) {
                lemma_digits_value_grows(text, i + 1 - start);
            }
        }
        match value.checked_mul(10) {
            None => {
                return None;
            },
            Some(shifted) => match shifted.checked_add(digit) {
                None => {
                    return None;
                },
                Some(next) => {
                    value = next;
                },
            },
        }
        i = i + 1;
    }
    assert(text.take(text.len() as int) =~= text);
    Some(value)
}

/// The integer that a string writes, where it is an `i64`.
pub fn parse_i64(text: &str) -> (value: Option<i64>)
    ensures
        value == (match integer_within(text@, i64::MIN as int, i64::MAX as int) {
            Some(number) => Some(number as i64),
            None => None,
        }),
{
    let chars: Vec<char> = chars_of(text);
    if chars.len() == 0 {
        return None;
    }
    let first: char = chars[0];
    assert(chars@.skip(1) =~= text@.drop_first());
    assert(chars@.skip(0) =~= text@);
    let signed: bool = first == '+' || first == '-';
    assert(signed ==> !is_digit(text@[0]));
    let magnitude: Option<u64> = digits_from(&chars, if signed { 1 } else { 0 });
    proof {
        if is_digits(text@) {
            lemma_digits_value_grows(text@, 0);
        }
        if is_digits(text@.drop_first()) {
            lemma_digits_value_grows(text@.drop_first(), 0);
        }
    }
    match magnitude {
        None => None,
        Some(value) => if first == '-' {
            if value <= 0x7fff_ffff_ffff_ffff {
                Some(-(value as i64))
            } else if value == 0x8000_0000_0000_0000 {
                Some(i64::MIN)
            } else {
                None
            }
        } else if value <= 0x7fff_ffff_ffff_ffff {
            Some(value as i64)
        } else {
            None
        },
    }
}

/// The integer that a string writes, where it is an `i32`.
pub fn parse_i32(text: &str) -> (value: Option<i32>)
    ensures
        value == (match integer_within(text@, i32::MIN as int, i32::MAX as int) {
            Some(number) => Some(number as i32),
            None => None,
        }),
{
    match parse_i64(text) {
        Some(value) => if -0x8000_0000 <= value && value <= 0x7fff_ffff {
            Some(value as i32)
        } else {
            None
        },
        None => None,
    }
}

/// The digits that write `number` in base ten, with no leading zero.
pub open spec fn decimal_digits(number: nat) -> Seq<char>
    decreases number,
{
    if number < 10 {
        seq![(number + '0' as nat) as char]
    } else {
        decimal_digits(number / 10).push((number % 10 + '0' as nat) as char)
    }
}

/// Reading the digits of a number gives the number back.
pub proof fn decimal_digits_read_back(number: nat)
    ensures
        is_digits(decimal_digits(number)),
        digits_value(decimal_digits(number)) == number,
    decreases number,
{
    let digits = decimal_digits(number);
    if number < 10 {
        reveal_with_fuel(digits_value, 2);
        assert(digits.drop_last() =~= Seq::<char>::empty());
    } else {
        decimal_digits_read_back(number / 10);
        assert(digits.drop_last() =~= decimal_digits(number / 10));
        assert forall|i: int| 0 <= i < digits.len() implies is_digit(#[trigger] digits[i]) by {
            if i < digits.len() - 1 {
                assert(digits[i] == decimal_digits(number / 10)[i]);
            }
        }
    }
}

fn digit_text(digit: u64) -> (text: &'static str)
    requires
        digit < 10,
    ensures
        text@ == seq![(digit as nat + '0' as nat) as char],
{
    proof {
        reveal_strlit("0");
        reveal_strlit("1");
        reveal_strlit("2");
        reveal_strlit("3");
        reveal_strlit("4");
        reveal_strlit("5");
        reveal_strlit("6");
        reveal_strlit("7");
        reveal_strlit("8");
        reveal_strlit("9");
    }
    match digit {
        0 => "0",
        1 => "1",
        2 => "2",
        3 => "3",
        4 => "4",
        5 => "5",
        6 => "6",
        7 => "7",
        8 => "8",
        _ => "9",
    }
}

/// A number written in base ten.
pub fn decimal_text(number: u64) -> (text: String)
    ensures
        text@ == decimal_digits(number as nat),
    decreases number,
{
    let mut text: String = if number < 10 {
        String::new()
    } else {
        decimal_text(number / 10)
    };
    text.append(digit_text(number % 10));
    text
}

proof fn lemma_first_difference(left: Seq<u8>, right: Seq<u8>, at: int)
    requires
        0 <= at <= left.len(),
        at < right.len(),
        forall|i: int| 0 <= i < at ==> #[trigger] left[i] == right[i],
        at < left.len() ==> left[at] != right[at],
    ensures
        bytes_before(left, right) == (at == left.len() || left[at] < right[at]),
        bytes_before(right, left) == (at < left.len() && right[at] < left[at]),
    decreases at,
{
    if at > 0 {
        let a = left.drop_first();
        let b = right.drop_first();
        assert(left[0] == right[0]);
        assert forall|i: int| 0 <= i < at - 1 implies #[trigger] a[i] == b[i] by {
            assert(left[i + 1] == right[i + 1]);
        }
        lemma_first_difference(a, b, at - 1);
    }
}

/// The first byte in which two strings differ decides which of them comes first, and a
/// string comes before every longer one that begins with it.
pub proof fn the_first_difference_decides(left: Seq<char>, right: Seq<char>, at: int)
    requires
        0 <= at <= encode_utf8(left).len(),
        at < encode_utf8(right).len(),
        forall|i: int| 0 <= i < at ==> #[trigger] encode_utf8(left)[i] == encode_utf8(right)[i],
        at < encode_utf8(left).len() ==> encode_utf8(left)[at] != encode_utf8(right)[at],
    ensures
        text_before(left, right) == (at == encode_utf8(left).len() || encode_utf8(left)[at]
            < encode_utf8(right)[at]),
        text_before(right, left) == (at < encode_utf8(left).len() && encode_utf8(right)[at]
            < encode_utf8(left)[at]),
{
    lemma_first_difference(encode_utf8(left), encode_utf8(right), at);
}

proof fn lemma_start_is_white_space(text: Seq<char>) -> (from: int)
    ensures
        0 <= from <= text.len(),
        trimmed_start(text) == text.skip(from),
        forall|i: int| 0 <= i < from ==> is_white_space(#[trigger] text[i]),
        from < text.len() ==> !is_white_space(text[from]),
    decreases text.len(),
{
    if text.len() > 0 && is_white_space(text[0]) {
        let rest = text.drop_first();
        let from = lemma_start_is_white_space(rest);
        assert(rest.skip(from) =~= text.skip(from + 1));
        assert forall|i: int| 0 <= i < from + 1 implies is_white_space(#[trigger] text[i]) by {
            if i > 0 {
                assert(rest[i - 1] == text[i]);
            }
        }
        from + 1
    } else {
        assert(text.skip(0) =~= text);
        0
    }
}

proof fn lemma_end_is_white_space(text: Seq<char>) -> (to: int)
    ensures
        0 <= to <= text.len(),
        trimmed_end(text) == text.take(to),
        forall|i: int| to <= i < text.len() ==> is_white_space(#[trigger] text[i]),
        to > 0 ==> !is_white_space(text[to - 1]),
    decreases text.len(),
{
    if text.len() > 0 && is_white_space(text.last()) {
        let rest = text.drop_last();
        let to = lemma_end_is_white_space(rest);
        assert(rest.take(to) =~= text.take(to));
        assert forall|i: int| to <= i < text.len() implies is_white_space(#[trigger] text[i]) by {
            if i < rest.len() {
                assert(rest[i] == text[i]);
            }
        }
        to
    } else {
        assert(text.take(text.len() as int) =~= text);
        text.len() as int
    }
}

/// Trimming takes white space from both ends, all of it and nothing else: what comes
/// back is what stood before and behind.
pub proof fn only_white_space_is_trimmed(text: Seq<char>) -> (around: (Seq<char>, Seq<char>))
    ensures
        text == around.0 + trimmed(text) + around.1,
        forall|i: int| 0 <= i < around.0.len() ==> is_white_space(#[trigger] around.0[i]),
        forall|i: int| 0 <= i < around.1.len() ==> is_white_space(#[trigger] around.1[i]),
        trimmed(text).len() > 0 ==> !is_white_space(trimmed(text)[0]) && !is_white_space(
            trimmed(text).last(),
        ),
{
    let from = lemma_start_is_white_space(text);
    let body = text.skip(from);
    let to = lemma_end_is_white_space(body);
    let before = text.take(from);
    let after = body.skip(to);
    assert(before + body.take(to) + after =~= text);
    assert forall|i: int| 0 <= i < before.len() implies is_white_space(#[trigger] before[i]) by {
        assert(before[i] == text[i]);
    }
    assert forall|i: int| 0 <= i < after.len() implies is_white_space(#[trigger] after[i]) by {
        assert(after[i] == body[to + i]);
    }
    if to > 0 {
        assert(body.take(to)[0] == text[from]);
        assert(body.take(to).last() == body[to - 1]);
    }
    (before, after)
}

/// A number is read with its sign: digits alone and digits behind a plus are the number,
/// digits behind a minus are its negative.
pub proof fn integers_are_read_with_their_sign(number: nat)
    ensures
        integer_of(decimal_digits(number)) == Some(number as int),
        integer_of(seq!['+'] + decimal_digits(number)) == Some(number as int),
        integer_of(seq!['-'] + decimal_digits(number)) == Some(-(number as int)),
{
    let digits = decimal_digits(number);
    decimal_digits_read_back(number);
    let plus = seq!['+'] + digits;
    let minus = seq!['-'] + digits;
    assert(plus.drop_first() =~= digits);
    assert(minus.drop_first() =~= digits);
    assert(!is_digit(plus[0]) && !is_digit(minus[0]));
}

/// Zeros before a number make no difference to it.
pub proof fn leading_zeros_make_no_difference(text: Seq<char>)
    requires
        is_digits(text),
    ensures
        integer_of(seq!['0'] + text) == integer_of(text),
        digits_value(seq!['0'] + text) == digits_value(text),
{
    let longer = seq!['0'] + text;
    assert(is_digits(longer)) by {
        assert forall|i: int| 0 <= i < longer.len() implies is_digit(#[trigger] longer[i]) by {
            if i > 0 {
                assert(longer[i] == text[i - 1]);
            }
        }
    }
    lemma_leading_zero(text);
}

proof fn lemma_leading_zero(text: Seq<char>)
    ensures
        digits_value(seq!['0'] + text) == digits_value(text),
    decreases text.len(),
{
    let longer = seq!['0'] + text;
    if text.len() == 0 {
        reveal_with_fuel(digits_value, 2);
        assert(longer.drop_last() =~= seq![]);
    } else {
        lemma_leading_zero(text.drop_last());
        assert(longer.drop_last() =~= seq!['0'] + text.drop_last());
        assert(longer.last() == text.last());
    }
}

/// Whatever holds anything but digits behind at most one sign is no integer.
pub proof fn only_digits_are_integers(text: Seq<char>)
    requires
        integer_of(text) is Some,
    ensures
        text.len() > 0,
        '0' <= text.last() <= '9',
        '0' <= text[0] <= '9' || text[0] == '+' || text[0] == '-',
        forall|i: int| 1 <= i < text.len() ==> '0' <= #[trigger] text[i] <= '9',
{
    let rest = text.drop_first();
    if is_digits(text) {
        assert(is_digit(text[0]) && is_digit(text[text.len() - 1]));
        assert forall|i: int| 1 <= i < text.len() implies '0' <= #[trigger] text[i] <= '9' by {
            assert(is_digit(text[i]));
        }
    } else {
        assert forall|i: int| 1 <= i < text.len() implies '0' <= #[trigger] text[i] <= '9' by {
            assert(rest[i - 1] == text[i]);
            assert(is_digit(rest[i - 1]));
        }
        assert(text.last() == rest.last());
        assert(is_digit(rest[rest.len() - 1]));
    }
}

/// An integer is read where it lies within the bounds, both included, and nowhere else.
pub proof fn bounds_are_inclusive(text: Seq<char>, low: int, high: int, value: int)
    requires
        integer_of(text) == Some(value),
    ensures
        low <= value <= high ==> integer_within(text, low, high) == Some(value),
        !(low <= value <= high) ==> integer_within(text, low, high) is None,
{
}

/// A number is written without a leading zero.
pub proof fn numbers_are_written_without_leading_zeros(number: nat)
    requires
        number > 0,
    ensures
        decimal_digits(number)[0] != '0',
    decreases number,
{
    if number >= 10 {
        numbers_are_written_without_leading_zeros(number / 10);
        assert(decimal_digits(number / 10).len() > 0) by {
            decimal_digits_read_back(number / 10);
        }
        assert(decimal_digits(number)[0] == decimal_digits(number / 10)[0]);
    }
}

} // verus!
