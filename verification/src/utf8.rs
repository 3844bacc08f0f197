//! UTF-8 text that arrives in pieces.
//!
//! A byte stream is cut anywhere, also inside a multibyte character. The bytes of a
//! character that is not complete yet wait for the next piece; bytes that no further
//! byte can turn into a character are replaced by one U+FFFD.

use crate::text::string_from_utf8;
use vstd::prelude::*;
use vstd::string::*;
use vstd::utf8::*;

verus! {

broadcast use vstd::utf8::group_utf8_lib;

/// The character that stands for bytes that encode nothing.
pub const REPLACEMENT: char = '\u{FFFD}';

/// Whether `bytes` is the beginning, and only the beginning, of an encoded character.
pub open spec fn incomplete_scalar(bytes: Seq<u8>) -> bool {
    &&& bytes.len() > 0
    &&& !valid_first_scalar(bytes)
    &&& exists|tail: Seq<u8>| #[trigger] valid_first_scalar(bytes + tail)
}

/// How many bytes at the start of `bytes` are to be given up, where they neither
/// encode a character nor begin one: as many as begin a character together, and at
/// least one.
pub open spec fn invalid_len(bytes: Seq<u8>) -> int {
    if bytes.len() > 3 && incomplete_scalar(bytes.take(3)) {
        3
    } else if bytes.len() > 2 && incomplete_scalar(bytes.take(2)) {
        2
    } else {
        1
    }
}

/// The length of the longest beginning of `bytes` that is valid UTF-8.
pub open spec fn valid_len(bytes: Seq<u8>) -> int
    decreases bytes.len(),
{
    if bytes.len() == 0 || !valid_first_scalar(bytes) {
        0
    } else {
        length_of_first_scalar(bytes) + valid_len(pop_first_scalar(bytes))
    }
}

/// How many bytes behind the longest valid beginning of `bytes` are to be given up:
/// none where `bytes` ends there, or ends in a character that is not complete.
pub open spec fn error_len(bytes: Seq<u8>) -> int {
    let rest = bytes.skip(valid_len(bytes));
    if rest.len() == 0 || incomplete_scalar(rest) {
        0
    } else {
        invalid_len(rest)
    }
}

/// Whether two bytes begin a character of three bytes.
pub open spec fn second_of_three(first: u8, second: u8) -> bool {
    ||| first == 0xe0 && 0xa0 <= second <= 0xbf
    ||| 0xe1 <= first <= 0xec && 0x80 <= second <= 0xbf
    ||| first == 0xed && 0x80 <= second <= 0x9f
    ||| 0xee <= first <= 0xef && 0x80 <= second <= 0xbf
}

/// Whether two bytes begin a character of four bytes.
pub open spec fn second_of_four(first: u8, second: u8) -> bool {
    ||| first == 0xf0 && 0x90 <= second <= 0xbf
    ||| 0xf1 <= first <= 0xf3 && 0x80 <= second <= 0xbf
    ||| first == 0xf4 && 0x80 <= second <= 0x8f
}

/// Whether `bytes` begins with a character, by the ranges of its bytes.
pub open spec fn scalar_form(bytes: Seq<u8>) -> bool {
    ||| bytes.len() >= 1 && bytes[0] <= 0x7f
    ||| bytes.len() >= 2 && 0xc2 <= bytes[0] <= 0xdf && is_continuation_byte(bytes[1])
    ||| bytes.len() >= 3 && second_of_three(bytes[0], bytes[1]) && is_continuation_byte(bytes[2])
    ||| bytes.len() >= 4 && second_of_four(bytes[0], bytes[1]) && is_continuation_byte(bytes[2])
        && is_continuation_byte(bytes[3])
}

/// Whether `bytes` is the beginning, and only the beginning, of a character, by the
/// ranges of its bytes.
pub open spec fn incomplete_form(bytes: Seq<u8>) -> bool {
    ||| bytes.len() == 1 && 0xc2 <= bytes[0] <= 0xf4
    ||| bytes.len() == 2 && (second_of_three(bytes[0], bytes[1]) || second_of_four(
        bytes[0],
        bytes[1],
    ))
    ||| bytes.len() == 3 && second_of_four(bytes[0], bytes[1]) && is_continuation_byte(bytes[2])
}

proof fn lemma_width_1(a: u8)
    by (bit_vector)
    requires
        a <= 0x7f,
    ensures
        codepoint_width_1(a) <= 0x7f,
{
}

proof fn lemma_width_2(a: u8, b: u8)
    by (bit_vector)
    requires
        is_leading_byte_width_2(a),
        is_continuation_byte(b),
    ensures
        codepoint_width_2(a, b) <= 0x7ff,
        codepoint_width_2(a, b) >= 0x80 <==> a >= 0xc2,
{
}

proof fn lemma_width_3(a: u8, b: u8, c: u8)
    by (bit_vector)
    requires
        is_leading_byte_width_3(a),
        is_continuation_byte(b),
        is_continuation_byte(c),
    ensures
        (codepoint_width_3(a, b, c) >= 0x800 && !(0xd800 <= codepoint_width_3(a, b, c) <= 0xdfff))
            <==> ((a == 0xe0 && 0xa0 <= b <= 0xbf) || (0xe1 <= a <= 0xec) || (a == 0xed && b
            <= 0x9f) || (0xee <= a <= 0xef)),
{
}

proof fn lemma_width_4(a: u8, b: u8, c: u8, d: u8)
    by (bit_vector)
    requires
        is_leading_byte_width_4(a),
        is_continuation_byte(b),
        is_continuation_byte(c),
        is_continuation_byte(d),
    ensures
        (0x10000 <= codepoint_width_4(a, b, c, d) <= 0x10ffff) <==> ((a == 0xf0 && b >= 0x90) || (
        0xf1 <= a <= 0xf3) || (a == 0xf4 && b <= 0x8f)),
{
}

/// The ranges of its first bytes decide whether a byte string begins with a character.
pub proof fn characters_by_their_bytes(bytes: Seq<u8>)
    ensures
        valid_first_scalar(bytes) == scalar_form(bytes),
{
    if bytes.len() >= 1 {
        let a = bytes[0];
        if a <= 0x7f {
            lemma_width_1(a);
        } else if is_leading_byte_width_2(a) {
            if bytes.len() >= 2 && is_continuation_byte(bytes[1]) {
                lemma_width_2(a, bytes[1]);
            }
        } else if is_leading_byte_width_3(a) {
            if bytes.len() >= 3 && is_continuation_byte(bytes[1]) && is_continuation_byte(
                bytes[2],
            ) {
                lemma_width_3(a, bytes[1], bytes[2]);
            }
        } else if is_leading_byte_width_4(a) {
            if bytes.len() >= 4 && is_continuation_byte(bytes[1]) && is_continuation_byte(bytes[2])
                && is_continuation_byte(bytes[3]) {
                lemma_width_4(a, bytes[1], bytes[2], bytes[3]);
            }
        }
    }
}

/// The ranges of its bytes decide whether a byte string is an incomplete character.
pub proof fn incomplete_characters_by_their_bytes(bytes: Seq<u8>)
    ensures
        incomplete_scalar(bytes) == incomplete_form(bytes),
{
    characters_by_their_bytes(bytes);
    if incomplete_scalar(bytes) {
        let tail = choose|tail: Seq<u8>| #[trigger] valid_first_scalar(bytes + tail);
        let whole = bytes + tail;
        characters_by_their_bytes(whole);
        assert(whole[0] == bytes[0]);
        assert(bytes.len() >= 2 ==> whole[1] == bytes[1]);
        assert(bytes.len() >= 3 ==> whole[2] == bytes[2]);
        assert(bytes.len() >= 4 ==> whole[3] == bytes[3]);
    }
    if incomplete_form(bytes) {
        let a = bytes[0];
        let second: u8 = if a == 0xe0 {
            0xa0
        } else if a == 0xf0 {
            0x90
        } else {
            0x80
        };
        let tail: Seq<u8> = if bytes.len() == 1 {
            seq![second, 0x80u8, 0x80u8]
        } else {
            seq![0x80u8, 0x80u8]
        };
        let whole = bytes + tail;
        assert(whole[0] == bytes[0]);
        assert(bytes.len() >= 2 ==> whole[1] == bytes[1]);
        assert(bytes.len() >= 3 ==> whole[2] == bytes[2]);
        characters_by_their_bytes(whole);
        assert(valid_first_scalar(whole));
    }
}

/// What a byte string begins with.
enum Lead {
    /// A character of so many bytes.
    Scalar(usize),
    /// A character that is not complete, and nothing behind it.
    Incomplete,
    /// So many bytes that encode nothing.
    Invalid(usize),
}

fn is_continuation(byte: u8) -> (yes: bool)
    ensures
        yes == is_continuation_byte(byte),
{
    0x80 <= byte && byte <= 0xbf
}

/// What `bytes` begins with, from `at` on.
fn lead_at(bytes: &[u8], at: usize) -> (lead: Lead)
    requires
        at < bytes@.len(),
    ensures
        ({
            let rest = bytes@.skip(at as int);
            match lead {
                Lead::Scalar(len) => valid_first_scalar(rest) && len == length_of_first_scalar(rest)
                    && len <= rest.len(),
                Lead::Incomplete => incomplete_scalar(rest),
                Lead::Invalid(len) => !valid_first_scalar(rest) && !incomplete_scalar(rest) && len
                    == invalid_len(rest) && len <= rest.len(),
            }
        }),
{
    let ghost rest = bytes@.skip(at as int);
    proof {
        characters_by_their_bytes(rest);
        incomplete_characters_by_their_bytes(rest);
        incomplete_characters_by_their_bytes(rest.take(2));
        incomplete_characters_by_their_bytes(rest.take(3));
    }
    let left: usize = bytes.len() - at;
    let a: u8 = bytes[at];
    assert(rest[0] == a);
    if a <= 0x7f {
        return Lead::Scalar(1);
    }
    if a < 0xc2 || a > 0xf4 {
        return Lead::Invalid(1);
    }
    if left == 1 {
        return Lead::Incomplete;
    }
    let b: u8 = bytes[at + 1];
    assert(rest[1] == b);
    if a <= 0xdf {
        return if is_continuation(b) {
            Lead::Scalar(2)
        } else {
            Lead::Invalid(1)
        };
    }
    let low: u8 = if a == 0xe0 {
        0xa0
    } else if a == 0xf0 {
        0x90
    } else {
        0x80
    };
    let high: u8 = if a == 0xed {
        0x9f
    } else if a == 0xf4 {
        0x8f
    } else {
        0xbf
    };
    if b < low || b > high {
        return Lead::Invalid(1);
    }
    if left == 2 {
        return Lead::Incomplete;
    }
    let c: u8 = bytes[at + 2];
    assert(rest[2] == c);
    if !is_continuation(c) {
        return Lead::Invalid(2);
    }
    if a <= 0xef {
        return Lead::Scalar(3);
    }
    if left == 3 {
        return Lead::Incomplete;
    }
    let d: u8 = bytes[at + 3];
    assert(rest[3] == d);
    if is_continuation(d) {
        Lead::Scalar(4)
    } else {
        Lead::Invalid(3)
    }
}

/// The length of the longest valid beginning of `bytes`, and how many bytes behind it
/// are to be given up.
pub fn scan_utf8(bytes: &[u8]) -> (lens: (usize, usize))
    ensures
        lens.0 == valid_len(bytes@),
        lens.1 == error_len(bytes@),
        lens.0 + lens.1 <= bytes@.len(),
        valid_utf8(bytes@.take(lens.0 as int)),
{
    let mut at: usize = 0;
    assert(bytes@.skip(0) =~= bytes@);
    assert(bytes@.subrange(0, 0) =~= Seq::<u8>::empty());
    while at < bytes.len()
        invariant
            at <= bytes@.len(),
            valid_len(bytes@) == at + valid_len(bytes@.skip(at as int)),
            partial_valid_utf8(bytes@, at as int),
        decreases bytes@.len() - at,
    {
        let ghost rest = bytes@.skip(at as int);
        assert(rest =~= bytes@.subrange(at as int, bytes@.len() as int));
        match lead_at(bytes, at) {
            Lead::Scalar(len) => {
                assert(pop_first_scalar(rest) =~= bytes@.skip(at + len));
                proof {
                    partial_valid_utf8_extend(bytes@, at as int);
                }
                at = at + len;
            },
            Lead::Incomplete => {
                assert(bytes@.take(at as int) =~= bytes@.subrange(0, at as int));
                return (at, 0);
            },
            Lead::Invalid(len) => {
                assert(bytes@.take(at as int) =~= bytes@.subrange(0, at as int));
                return (at, len);
            },
        }
    }
    assert(bytes@.take(at as int) =~= bytes@.subrange(0, at as int));
    (at, 0)
}

/// How many bytes the next piece of text takes up at the start of `bytes`.
pub open spec fn piece_len(bytes: Seq<u8>) -> int {
    valid_len(bytes) + error_len(bytes)
}

/// The next piece of text: the longest valid beginning of `bytes`, and one U+FFFD for
/// the bytes that are given up behind it.
pub open spec fn piece(bytes: Seq<u8>) -> Seq<char> {
    decode_utf8(bytes.take(valid_len(bytes))) + if error_len(bytes) > 0 {
        seq![REPLACEMENT]
    } else {
        seq![]
    }
}

/// The text that `bytes` holds, up to a character that is not complete.
pub open spec fn complete_text(bytes: Seq<u8>) -> Seq<char>
    decreases bytes.len(),
{
    if bytes.len() == 0 || incomplete_scalar(bytes) {
        seq![]
    } else if valid_first_scalar(bytes) {
        seq![decode_first_scalar(bytes) as char] + complete_text(pop_first_scalar(bytes))
    } else {
        seq![REPLACEMENT] + complete_text(bytes.skip(invalid_len(bytes)))
    }
}

/// The bytes of the character that `bytes` ends in and that is not complete.
pub open spec fn waiting_bytes(bytes: Seq<u8>) -> Seq<u8>
    decreases bytes.len(),
{
    if bytes.len() == 0 || incomplete_scalar(bytes) {
        bytes
    } else if valid_first_scalar(bytes) {
        waiting_bytes(pop_first_scalar(bytes))
    } else {
        waiting_bytes(bytes.skip(invalid_len(bytes)))
    }
}

/// The text of `bytes` where nothing follows them: a character that is not complete
/// becomes one U+FFFD as well.
pub open spec fn lossy_text(bytes: Seq<u8>) -> Seq<char> {
    complete_text(bytes) + if waiting_bytes(bytes).len() > 0 {
        seq![REPLACEMENT]
    } else {
        seq![]
    }
}

proof fn lemma_scalar_prefix(bytes: Seq<u8>, tail: Seq<u8>)
    requires
        valid_first_scalar(bytes),
    ensures
        valid_first_scalar(bytes + tail),
        length_of_first_scalar(bytes + tail) == length_of_first_scalar(bytes),
        decode_first_scalar(bytes + tail) == decode_first_scalar(bytes),
        pop_first_scalar(bytes + tail) == pop_first_scalar(bytes) + tail,
        1 <= length_of_first_scalar(bytes) <= bytes.len(),
{
    let whole = bytes + tail;
    assert(whole[0] == bytes[0]);
    assert(bytes.len() >= 2 ==> whole[1] == bytes[1]);
    assert(bytes.len() >= 3 ==> whole[2] == bytes[2]);
    assert(bytes.len() >= 4 ==> whole[3] == bytes[3]);
    assert(pop_first_scalar(whole) =~= pop_first_scalar(bytes) + tail);
}

proof fn lemma_lens(bytes: Seq<u8>)
    ensures
        0 <= valid_len(bytes),
        0 <= error_len(bytes) <= 3,
        piece_len(bytes) <= bytes.len(),
        valid_utf8(bytes.take(valid_len(bytes))),
    decreases bytes.len(),
{
    reveal_with_fuel(valid_utf8, 2);
    if bytes.len() > 0 && valid_first_scalar(bytes) {
        let len = length_of_first_scalar(bytes);
        let rest = pop_first_scalar(bytes);
        lemma_scalar_prefix(bytes, seq![]);
        lemma_lens(rest);
        assert(bytes.skip(valid_len(bytes)) =~= rest.skip(valid_len(rest)));
        let head = bytes.take(valid_len(bytes));
        assert(head =~= bytes.take(len) + rest.take(valid_len(rest)));
        assert(bytes =~= head + bytes.skip(valid_len(bytes)));
        assert(valid_first_scalar(head)) by {
            characters_by_their_bytes(head);
            characters_by_their_bytes(bytes);
        }
        assert(pop_first_scalar(head) =~= rest.take(valid_len(rest)));
    } else {
        assert(bytes.take(0) =~= seq![]);
        assert(bytes.skip(0) =~= bytes);
    }
}

/// `valid_len` is the greatest length at which the beginning of `bytes` is valid UTF-8.
pub proof fn valid_len_is_greatest(bytes: Seq<u8>, len: int)
    requires
        0 <= len <= bytes.len(),
        valid_utf8(bytes.take(len)),
    ensures
        len <= valid_len(bytes) <= bytes.len(),
        valid_utf8(bytes.take(valid_len(bytes))),
    decreases bytes.len(),
{
    lemma_lens(bytes);
    if len > 0 {
        let head = bytes.take(len);
        assert(bytes =~= head + bytes.skip(len));
        lemma_scalar_prefix(head, bytes.skip(len));
        let width = length_of_first_scalar(bytes);
        assert(pop_first_scalar(head) =~= pop_first_scalar(bytes).take(len - width));
        valid_len_is_greatest(pop_first_scalar(bytes), len - width);
    }
}

proof fn lemma_piece(bytes: Seq<u8>)
    ensures
        complete_text(bytes) == piece(bytes) + complete_text(bytes.skip(piece_len(bytes))),
        waiting_bytes(bytes) == waiting_bytes(bytes.skip(piece_len(bytes))),
        piece_len(bytes) == 0 ==> bytes.len() == 0 || incomplete_scalar(bytes),
    decreases bytes.len(),
{
    lemma_lens(bytes);
    if bytes.len() > 0 && valid_first_scalar(bytes) {
        let rest = pop_first_scalar(bytes);
        lemma_scalar_prefix(bytes, seq![]);
        lemma_piece(rest);
        lemma_lens(rest);
        assert(bytes.skip(valid_len(bytes)) =~= rest.skip(valid_len(rest)));
        assert(bytes.skip(piece_len(bytes)) =~= rest.skip(piece_len(rest)));
        let head = bytes.take(valid_len(bytes));
        assert(bytes =~= head + bytes.skip(valid_len(bytes)));
        assert(valid_first_scalar(head)) by {
            characters_by_their_bytes(head);
            characters_by_their_bytes(bytes);
        }
        lemma_scalar_prefix(head, bytes.skip(valid_len(bytes)));
        assert(pop_first_scalar(head) =~= rest.take(valid_len(rest)));
        let first = decode_first_scalar(bytes) as char;
        assert(decode_utf8(head) == seq![first] + decode_utf8(rest.take(valid_len(rest))));
        assert(piece(bytes) =~= seq![first] + piece(rest));
        assert(seq![first] + piece(rest) + complete_text(bytes.skip(piece_len(bytes))) =~= seq![
            first,
        ] + (piece(rest) + complete_text(bytes.skip(piece_len(bytes)))));
    } else {
        assert(bytes.skip(0) =~= bytes);
        assert(bytes.take(0) =~= seq![]);
        assert(decode_utf8(bytes.take(0)) =~= seq![]);
        if bytes.len() == 0 || incomplete_scalar(bytes) {
            assert(piece(bytes) =~= seq![]);
            assert(bytes.skip(piece_len(bytes)) =~= bytes);
            assert(complete_text(bytes) =~= piece(bytes) + complete_text(bytes));
        } else {
            assert(piece(bytes) =~= seq![REPLACEMENT]);
        }
    }
}

/// Takes the next piece of text out of `pending`: the longest valid UTF-8 at its
/// start. Bytes of a character that is not complete stay in `pending`; bytes that
/// encode nothing become one U+FFFD. There is no piece where `pending` is empty or
/// holds only the beginning of a character.
pub fn take_utf8_prefix(pending: &mut Vec<u8>) -> (taken: Option<String>)
    ensures
        taken is None <==> old(pending)@.len() == 0 || incomplete_scalar(old(pending)@),
        taken is None ==> final(pending)@ == old(pending)@,
        taken matches Some(text) ==> {
            &&& text@ == piece(old(pending)@)
            &&& final(pending)@ == old(pending)@.skip(piece_len(old(pending)@))
            &&& final(pending)@.len() < old(pending)@.len()
        },
{
    let ghost bytes = pending@;
    proof {
        lemma_piece(bytes);
        assert(bytes.skip(0) =~= bytes);
        lemma_scalar_prefix_unless_incomplete(bytes);
    }
    let (valid, invalid) = scan_utf8(pending.as_slice());
    if valid == 0 && invalid == 0 {
        return None;
    }
    assert(valid + invalid <= pending.len());
    let mut rest: Vec<u8> = pending.split_off(valid + invalid);
    let mut head: Vec<u8> = Vec::new();
    head.append(pending);
    head.truncate(valid);
    pending.append(&mut rest);
    assert(head@ =~= bytes.take(valid as int));
    assert(pending@ =~= bytes.skip(piece_len(bytes)));
    let mut text: String = match string_from_utf8(head) {
        Some(text) => text,
        None => String::new(),
    };
    if invalid > 0 {
        proof {
            reveal_strlit("\u{FFFD}");
        }
        text.append("\u{FFFD}");
    }
    assert(text@ =~= piece(bytes));
    Some(text)
}

proof fn lemma_scalar_prefix_unless_incomplete(bytes: Seq<u8>)
    ensures
        bytes.len() > 0 && !incomplete_scalar(bytes) ==> piece_len(bytes) > 0,
        incomplete_scalar(bytes) ==> piece_len(bytes) == 0,
{
    lemma_lens(bytes);
    assert(bytes.skip(0) =~= bytes);
    if bytes.len() > 0 && valid_first_scalar(bytes) {
        lemma_scalar_prefix(bytes, seq![]);
        lemma_lens(pop_first_scalar(bytes));
    }
}

/// The text of the whole of `bytes`.
pub fn utf8_lossy(bytes: Vec<u8>) -> (text: String)
    ensures
        text@ == lossy_text(bytes@),
{
    let mut pending: Vec<u8> = bytes;
    let mut text: String = String::new();
    assert(complete_text(bytes@) =~= text@ + complete_text(pending@));
    loop
        invariant
            complete_text(bytes@) == text@ + complete_text(pending@),
            waiting_bytes(pending@) == waiting_bytes(bytes@),
        ensures
            complete_text(bytes@) == text@,
            pending@ == waiting_bytes(bytes@),
        decreases pending@.len(),
    {
        let ghost before = pending@;
        let ghost earlier = text@;
        proof {
            lemma_piece(before);
        }
        match take_utf8_prefix(&mut pending) {
            Some(next) => {
                text.append(next.as_str());
                assert(earlier + complete_text(before) =~= text@ + complete_text(pending@));
            },
            None => {
                assert(text@ + complete_text(before) =~= text@);
                break;
            },
        }
    }
    if pending.len() > 0 {
        proof {
            reveal_strlit("\u{FFFD}");
        }
        text.append("\u{FFFD}");
    }
    assert(text@ =~= lossy_text(bytes@));
    text
}

/// Where a byte string is cut makes no difference to its text: what the first part
/// leaves waiting, put before the second part, gives the rest of the text and leaves
/// the same bytes waiting.
pub proof fn cutting_keeps_the_text(first: Seq<u8>, second: Seq<u8>)
    ensures
        complete_text(first + second) == complete_text(first) + complete_text(
            waiting_bytes(first) + second,
        ),
        waiting_bytes(first + second) == waiting_bytes(waiting_bytes(first) + second),
    decreases first.len(),
{
    let whole = first + second;
    if first.len() == 0 || incomplete_scalar(first) {
        assert(complete_text(first) =~= seq![]);
        assert(complete_text(first) + complete_text(whole) =~= complete_text(whole));
    } else if valid_first_scalar(first) {
        let rest = pop_first_scalar(first);
        lemma_scalar_prefix(first, second);
        cutting_keeps_the_text(rest, second);
        lemma_not_incomplete(whole);
        let c = seq![decode_first_scalar(first) as char];
        let later = complete_text(waiting_bytes(first) + second);
        assert(c + (complete_text(rest) + later) =~= (c + complete_text(rest)) + later);
    } else {
        lemma_invalid_prefix(first, second);
        let len = invalid_len(first);
        let rest = first.skip(len);
        assert(whole.skip(len) =~= rest + second);
        cutting_keeps_the_text(rest, second);
        let c = seq![REPLACEMENT];
        let later = complete_text(waiting_bytes(first) + second);
        assert(c + (complete_text(rest) + later) =~= (c + complete_text(rest)) + later);
    }
}

proof fn lemma_not_incomplete(bytes: Seq<u8>)
    requires
        valid_first_scalar(bytes),
    ensures
        !incomplete_scalar(bytes),
{
}

/// Bytes that encode nothing do so whatever follows them.
proof fn lemma_invalid_prefix(bytes: Seq<u8>, tail: Seq<u8>)
    requires
        bytes.len() > 0,
        !valid_first_scalar(bytes),
        !incomplete_scalar(bytes),
    ensures
        !valid_first_scalar(bytes + tail),
        !incomplete_scalar(bytes + tail),
        invalid_len(bytes + tail) == invalid_len(bytes),
        1 <= invalid_len(bytes) <= bytes.len(),
{
    let whole = bytes + tail;
    if incomplete_scalar(whole) {
        let more = choose|more: Seq<u8>| #[trigger] valid_first_scalar(whole + more);
        assert(whole + more =~= bytes + (tail + more));
        assert(valid_first_scalar(bytes + (tail + more)));
    }
    assert forall|len: int| 2 <= len <= 3 && whole.len() > len implies incomplete_scalar(
        #[trigger] whole.take(len),
    ) == (bytes.len() > len && incomplete_scalar(bytes.take(len))) by {
        if bytes.len() > len {
            assert(whole.take(len) =~= bytes.take(len));
        } else if incomplete_scalar(whole.take(len)) {
            let more = choose|more: Seq<u8>| #[trigger]
                valid_first_scalar(whole.take(len) + more);
            let over = whole.take(len).skip(bytes.len() as int) + more;
            assert(whole.take(len) + more =~= bytes + over);
            assert(valid_first_scalar(bytes + over));
        }
    }
    if bytes.len() > 3 {
        assert(whole.take(3) =~= bytes.take(3));
    }
    if bytes.len() > 2 {
        assert(whole.take(2) =~= bytes.take(2));
    }
}

/// The text of a stream that arrives as `chunks` behind the bytes that wait already.
pub open spec fn stream_text(waiting: Seq<u8>, chunks: Seq<Seq<u8>>) -> Seq<char>
    decreases chunks.len(),
{
    if chunks.len() == 0 {
        lossy_text(waiting)
    } else {
        complete_text(waiting + chunks.first()) + stream_text(
            waiting_bytes(waiting + chunks.first()),
            chunks.drop_first(),
        )
    }
}

/// A stream read in chunks has the text of its bytes read at once, however it is cut.
pub proof fn chunks_keep_the_text(waiting: Seq<u8>, chunks: Seq<Seq<u8>>)
    ensures
        stream_text(waiting, chunks) == lossy_text(waiting + chunks.flatten()),
    decreases chunks.len(),
{
    if chunks.len() == 0 {
        assert(waiting + chunks.flatten() =~= waiting);
    } else {
        let start = waiting + chunks.first();
        let rest = chunks.drop_first();
        chunks_keep_the_text(waiting_bytes(start), rest);
        cutting_keeps_the_text(start, rest.flatten());
        assert(waiting + chunks.flatten() =~= start + rest.flatten());
        let end = waiting_bytes(start) + rest.flatten();
        assert(complete_text(start) + lossy_text(end) =~= lossy_text(start + rest.flatten()));
    }
}

/// Text that is valid UTF-8 comes out as it is.
pub proof fn valid_text_is_kept(bytes: Seq<u8>)
    requires
        valid_utf8(bytes),
    ensures
        lossy_text(bytes) == decode_utf8(bytes),
        waiting_bytes(bytes).len() == 0,
    decreases bytes.len(),
{
    if bytes.len() > 0 {
        lemma_scalar_prefix(bytes, seq![]);
        valid_text_is_kept(pop_first_scalar(bytes));
        assert(lossy_text(bytes) =~= decode_utf8(bytes));
    } else {
        assert(lossy_text(bytes) =~= decode_utf8(bytes));
    }
}

/// The beginning of a valid text is valid itself, but for a character that is not
/// complete at its end.
pub proof fn cut_text_is_valid_or_incomplete(bytes: Seq<u8>, len: int)
    requires
        valid_utf8(bytes),
        0 <= len <= bytes.len(),
    ensures
        error_len(bytes.take(len)) == 0,
        valid_utf8(bytes.take(len).take(valid_len(bytes.take(len)))),
        len - 3 <= valid_len(bytes.take(len)) <= len,
    decreases bytes.len(),
{
    let head = bytes.take(len);
    lemma_lens(head);
    if len > 0 {
        lemma_scalar_prefix(bytes, seq![]);
        let width = length_of_first_scalar(bytes);
        if width <= len {
            characters_by_their_bytes(head);
            characters_by_their_bytes(bytes);
            assert(bytes =~= head + bytes.skip(len));
            lemma_scalar_prefix(head, bytes.skip(len));
            let rest = pop_first_scalar(bytes);
            cut_text_is_valid_or_incomplete(rest, len - width);
            assert(pop_first_scalar(head) =~= rest.take(len - width));
            lemma_lens(rest.take(len - width));
            assert(head.skip(valid_len(head)) =~= rest.take(len - width).skip(
                valid_len(rest.take(len - width)),
            ));
        } else {
            assert(bytes =~= head + bytes.skip(len));
            if valid_first_scalar(head) {
                lemma_scalar_prefix(head, bytes.skip(len));
            }
            assert(valid_first_scalar(head + bytes.skip(len)));
            assert(incomplete_scalar(head));
            assert(head.skip(0) =~= head);
        }
    }
}

/// Taking a piece off a byte string leaves the rest of its text, and the same bytes
/// waiting; there is a piece unless the string is empty or an incomplete character.
pub proof fn pieces_are_taken_one_by_one(bytes: Seq<u8>)
    ensures
        0 <= piece_len(bytes) <= bytes.len(),
        piece_len(bytes) == 0 <==> bytes.len() == 0 || incomplete_scalar(bytes),
        complete_text(bytes) == piece(bytes) + complete_text(bytes.skip(piece_len(bytes))),
        waiting_bytes(bytes) == waiting_bytes(bytes.skip(piece_len(bytes))),
{
    lemma_piece(bytes);
    lemma_lens(bytes);
    lemma_scalar_prefix_unless_incomplete(bytes);
}

/// The valid beginning of a byte string is as long as its valid text, where no further
/// character follows that.
pub proof fn the_valid_beginning_ends_with_its_text(bytes: Seq<u8>, len: int)
    requires
        0 <= len <= bytes.len(),
        valid_utf8(bytes.take(len)),
        len < bytes.len() ==> !valid_first_scalar(bytes.skip(len)),
    ensures
        valid_len(bytes) == len,
    decreases bytes.len(),
{
    if len == 0 {
        assert(bytes.skip(0) =~= bytes);
    } else {
        let head = bytes.take(len);
        assert(bytes =~= head + bytes.skip(len));
        lemma_scalar_prefix(head, bytes.skip(len));
        let width = length_of_first_scalar(bytes);
        let rest = pop_first_scalar(bytes);
        assert(pop_first_scalar(head) =~= rest.take(len - width));
        assert(rest.skip(len - width) =~= bytes.skip(len));
        the_valid_beginning_ends_with_its_text(rest, len - width);
    }
}

/// Bytes that encode nothing are given up together as far as they begin a character, and
/// no further: at least the first one, and never so many that a longer beginning is torn.
pub proof fn a_broken_character_is_given_up_whole(bytes: Seq<u8>, len: int)
    requires
        bytes.len() > 0,
        !valid_first_scalar(bytes),
        !incomplete_scalar(bytes),
    ensures
        1 <= invalid_len(bytes) <= bytes.len(),
        invalid_len(bytes) > 1 ==> incomplete_scalar(bytes.take(invalid_len(bytes))),
        1 <= len < bytes.len() && incomplete_scalar(bytes.take(len)) ==> len <= invalid_len(bytes),
{
    lemma_invalid_prefix(bytes, seq![]);
    if 1 <= len < bytes.len() && incomplete_scalar(bytes.take(len)) {
        incomplete_characters_by_their_bytes(bytes.take(len));
        if len == 3 {
            assert(bytes.take(3).len() == 3);
        } else if len == 2 {
            assert(bytes.take(2).len() == 2);
        }
    }
}

/// Behind valid text, the bytes that are given up become one U+FFFD, and the text goes on
/// behind them: nothing else is replaced, and no valid text is lost.
pub proof fn bytes_that_encode_nothing_become_one_replacement(head: Seq<u8>, broken: Seq<u8>)
    requires
        valid_utf8(head),
        broken.len() > 0,
        !valid_first_scalar(broken),
        !incomplete_scalar(broken),
    ensures
        piece(head + broken) == decode_utf8(head) + seq!['\u{FFFD}'],
        piece_len(head + broken) == head.len() + invalid_len(broken),
        complete_text(head + broken) == decode_utf8(head) + seq!['\u{FFFD}'] + complete_text(
            broken.skip(invalid_len(broken)),
        ),
{
    let whole = head + broken;
    assert(whole.take(head.len() as int) =~= head);
    assert(whole.skip(head.len() as int) =~= broken);
    the_valid_beginning_ends_with_its_text(whole, head.len() as int);
    lemma_invalid_prefix(broken, seq![]);
    cutting_keeps_the_text(head, broken);
    valid_text_is_kept(head);
    assert(complete_text(head) =~= decode_utf8(head));
    assert(waiting_bytes(head) + broken =~= broken);
    assert(piece(whole) =~= decode_utf8(head) + seq!['\u{FFFD}']);
    assert(complete_text(whole) =~= decode_utf8(head) + seq!['\u{FFFD}'] + complete_text(
        broken.skip(invalid_len(broken)),
    ));
}

/// Behind valid text, a character that is not complete waits for its other bytes, and
/// becomes one U+FFFD only where nothing follows.
pub proof fn a_character_that_is_not_complete_waits(head: Seq<u8>, begun: Seq<u8>)
    requires
        valid_utf8(head),
        incomplete_scalar(begun),
    ensures
        piece(head + begun) == decode_utf8(head),
        piece_len(head + begun) == head.len(),
        complete_text(head + begun) == decode_utf8(head),
        waiting_bytes(head + begun) == begun,
        lossy_text(head + begun) == decode_utf8(head) + seq!['\u{FFFD}'],
{
    let whole = head + begun;
    assert(whole.take(head.len() as int) =~= head);
    assert(whole.skip(head.len() as int) =~= begun);
    the_valid_beginning_ends_with_its_text(whole, head.len() as int);
    cutting_keeps_the_text(head, begun);
    valid_text_is_kept(head);
    assert(complete_text(head) =~= decode_utf8(head));
    assert(waiting_bytes(head) + begun =~= begun);
    assert(complete_text(begun) =~= seq![]);
    assert(piece(whole) =~= decode_utf8(head));
    assert(complete_text(whole) =~= decode_utf8(head));
    assert(lossy_text(whole) =~= decode_utf8(head) + seq!['\u{FFFD}']);
}

/// Valid text is taken whole, and nothing waits behind it.
pub proof fn valid_text_is_taken_whole(text: Seq<u8>)
    requires
        valid_utf8(text),
    ensures
        piece(text) == decode_utf8(text),
        piece_len(text) == text.len(),
        complete_text(text) == decode_utf8(text),
{
    assert(text.take(text.len() as int) =~= text);
    the_valid_beginning_ends_with_its_text(text, text.len() as int);
    assert(text.skip(text.len() as int) =~= seq![]);
    valid_text_is_kept(text);
    assert(piece(text) =~= decode_utf8(text));
    assert(complete_text(text) =~= decode_utf8(text));
}

} // verus!
