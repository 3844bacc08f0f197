//! Quantities of processor time and memory, as the metrics API writes them.
//!
//! Numbers with a fraction stay outside: the caller brings their operations, and what is
//! decided here holds whatever type they are of.

use crate::text::{
    decimal_digits, decimal_digits_read_back, integer_of, integer_within, is_digit, is_white_space,
    only_digits_are_integers, parse_i64, strip_text_suffix, trim_text, trimmed, trimmed_end,
    trimmed_start,
};
use vstd::prelude::*;
use vstd::string::*;

verus! {

/// What a number is multiplied or divided by.
#[derive(Debug, Clone, Copy, PartialEq, Eq, Structural)]
pub enum Scale {
    Times(u64),
    Over(u64),
}

/// What a number is good for.
#[derive(Debug, Clone, Copy, PartialEq, Eq, Structural)]
pub enum NumberClass {
    /// Infinite, or no number at all.
    NotFinite,
    /// Finite and less than zero.
    Negative,
    /// Finite and not less than zero.
    Usable,
}

/// The operations of a type of numbers.
#[verifier::reject_recursive_types(F)]
pub struct Numbers<
    F: Copy,
    R: Fn(&str) -> Option<F>,
    S: Fn(F, Scale) -> F,
    C: Fn(F) -> NumberClass,
    P: Fn(F, F) -> F,
    N: Fn(F) -> u128,
> {
    /// The number zero.
    pub zero: F,
    /// The number that a text writes, if it writes one.
    pub read: R,
    /// A number times or over another one.
    pub scale: S,
    /// What a number is good for.
    pub classify: C,
    /// The sum of two numbers.
    pub plus: P,
    /// The nearest whole number to one that is not negative, or the greatest of the
    /// type where that is too great.
    pub nearest: N,
}

/// The operations of a type of numbers, as functions.
#[verifier::reject_recursive_types(F)]
pub struct NumbersView<F> {
    pub zero: F,
    pub read: spec_fn(Seq<char>) -> Option<F>,
    pub scale: spec_fn(F, Scale) -> F,
    pub classify: spec_fn(F) -> NumberClass,
    pub plus: spec_fn(F, F) -> F,
    pub nearest: spec_fn(F) -> u128,
}

impl<
    F: Copy,
    R: Fn(&str) -> Option<F>,
    S: Fn(F, Scale) -> F,
    C: Fn(F) -> NumberClass,
    P: Fn(F, F) -> F,
    N: Fn(F) -> u128,
> View for Numbers<F, R, S, C, P, N> {
    type V = NumbersView<F>;

    open spec fn view(&self) -> NumbersView<F> {
        NumbersView {
            zero: self.zero,
            read: |text: Seq<char>| self.number_in(text),
            scale: |x: F, by: Scale| self.scaled(x, by),
            classify: |x: F| self.class_of(x),
            plus: |x: F, y: F| self.sum_of(x, y),
            nearest: |x: F| self.nearest_to(x),
        }
    }
}

impl<
    F: Copy,
    R: Fn(&str) -> Option<F>,
    S: Fn(F, Scale) -> F,
    C: Fn(F) -> NumberClass,
    P: Fn(F, F) -> F,
    N: Fn(F) -> u128,
> Numbers<F, R, S, C, P, N> {
    /// Whether `value` can come of reading `text`.
    pub open spec fn may_read(&self, text: Seq<char>, value: Option<F>) -> bool {
        exists|source: &str| source@ == text && #[trigger] self.read.ensures((source,), value)
    }

    /// The number that `text` writes.
    pub open spec fn number_in(&self, text: Seq<char>) -> Option<F> {
        choose|value: Option<F>| self.may_read(text, value)
    }

    /// A number times or over another one.
    pub open spec fn scaled(&self, x: F, by: Scale) -> F {
        choose|value: F| self.scale.ensures((x, by), value)
    }

    /// What a number is good for.
    pub open spec fn class_of(&self, x: F) -> NumberClass {
        choose|class: NumberClass| self.classify.ensures((x,), class)
    }

    /// The sum of two numbers.
    pub open spec fn sum_of(&self, x: F, y: F) -> F {
        choose|value: F| self.plus.ensures((x, y), value)
    }

    /// The nearest whole number.
    pub open spec fn nearest_to(&self, x: F) -> u128 {
        choose|value: u128| self.nearest.ensures((x,), value)
    }

    /// Every operation takes all numbers and texts, and the same ones always give the
    /// same result.
    pub open spec fn inv(&self) -> bool {
        &&& forall|text: &str| #[trigger] self.read.requires((text,))
        &&& forall|x: F, by: Scale| #[trigger] self.scale.requires((x, by))
        &&& forall|x: F| #[trigger] self.classify.requires((x,))
        &&& forall|x: F, y: F| #[trigger] self.plus.requires((x, y))
        &&& forall|x: F| #[trigger] self.nearest.requires((x,))
        &&& forall|text: &str, value: Option<F>| #[trigger]
            self.read.ensures((text,), value) ==> value == self.number_in(text@)
        &&& forall|x: F, by: Scale, value: F| #[trigger]
            self.scale.ensures((x, by), value) ==> value == self.scaled(x, by)
        &&& forall|x: F, class: NumberClass| #[trigger]
            self.classify.ensures((x,), class) ==> class == self.class_of(x)
        &&& forall|x: F, y: F, value: F| #[trigger]
            self.plus.ensures((x, y), value) ==> value == self.sum_of(x, y)
        &&& forall|x: F, value: u128| #[trigger]
            self.nearest.ensures((x,), value) ==> value == self.nearest_to(x)
    }
}

impl<F> NumbersView<F> {
    /// Whether a number is finite and not less than zero.
    pub open spec fn usable(self, x: F) -> bool {
        (self.classify)(x) == NumberClass::Usable
    }
}

/// What is left of `text` before `suffix`.
pub open spec fn stem(text: Seq<char>, suffix: Seq<char>) -> Seq<char> {
    text.take(text.len() - suffix.len())
}

/// The number in a quantity of processor time, and what makes millicores of it.
pub open spec fn cpu_parts(text: Seq<char>) -> (Seq<char>, Scale) {
    if "n"@.is_suffix_of(text) {
        (stem(text, "n"@), Scale::Over(1_000_000))
    } else if "u"@.is_suffix_of(text) {
        (stem(text, "u"@), Scale::Over(1_000))
    } else if "m"@.is_suffix_of(text) {
        (stem(text, "m"@), Scale::Times(1))
    } else {
        (text, Scale::Times(1_000))
    }
}

/// The millicores that a text writes, if it writes any.
pub open spec fn cpu_millicores<F>(numbers: NumbersView<F>, text: Seq<char>) -> Option<F> {
    let (number, by) = cpu_parts(trimmed(text));
    match (numbers.read)(number) {
        Some(x) if numbers.usable((numbers.scale)(x, by)) => Some((numbers.scale)(x, by)),
        _ => None,
    }
}

/// The unit at the end of a quantity of memory: what stands before it, and how many
/// bytes it is. Binary units come first, so that `Mi` is no quantity in `M`.
pub open spec fn memory_parts(text: Seq<char>) -> Option<(Seq<char>, u64)> {
    if "Ki"@.is_suffix_of(text) {
        Some((stem(text, "Ki"@), 1_024))
    } else if "Mi"@.is_suffix_of(text) {
        Some((stem(text, "Mi"@), 1_048_576))
    } else if "Gi"@.is_suffix_of(text) {
        Some((stem(text, "Gi"@), 1_073_741_824))
    } else if "Ti"@.is_suffix_of(text) {
        Some((stem(text, "Ti"@), 1_099_511_627_776))
    } else if "K"@.is_suffix_of(text) {
        Some((stem(text, "K"@), 1_000))
    } else if "M"@.is_suffix_of(text) {
        Some((stem(text, "M"@), 1_000_000))
    } else if "G"@.is_suffix_of(text) {
        Some((stem(text, "G"@), 1_000_000_000))
    } else if "T"@.is_suffix_of(text) {
        Some((stem(text, "T"@), 1_000_000_000_000))
    } else {
        None
    }
}

/// The bytes that a number of units is, where they can be counted.
pub open spec fn scaled_bytes<F>(numbers: NumbersView<F>, number: Seq<char>, unit: u64) -> Option<
    i64,
> {
    match (numbers.read)(number) {
        Some(x) => {
            let bytes = (numbers.scale)(x, Scale::Times(unit));
            if numbers.usable(x) && numbers.usable(bytes) && (numbers.nearest)(bytes) <= i64::MAX {
                Some((numbers.nearest)(bytes) as i64)
            } else {
                None
            }
        },
        None => None,
    }
}

/// The bytes that a text writes, if it writes any.
pub open spec fn memory_bytes<F>(numbers: NumbersView<F>, text: Seq<char>) -> Option<i64> {
    match memory_parts(trimmed(text)) {
        Some((number, unit)) => scaled_bytes(numbers, number, unit),
        None => match integer_within(trimmed(text), 0, i64::MAX as int) {
            Some(bytes) => Some(bytes as i64),
            None => None,
        },
    }
}

fn strip<'a>(text: &'a str, suffix: &str) -> (before: Option<&'a str>)
    ensures
        before is Some <==> suffix@.is_suffix_of(text@),
        before matches Some(rest) ==> rest@ == stem(text@, suffix@),
{
    let before: Option<&'a str> = strip_text_suffix(text, suffix);
    match before {
        Some(rest) => {
            assert(rest@ =~= stem(text@, suffix@));
        },
        None => {},
    }
    before
}

/// The millicores that a text writes: a number with the suffix `n`, `u` or `m`, or of
/// whole cores. What is not finite or is negative is refused.
pub fn parse_cpu_millicores<
    F: Copy,
    R: Fn(&str) -> Option<F>,
    S: Fn(F, Scale) -> F,
    C: Fn(F) -> NumberClass,
    P: Fn(F, F) -> F,
    N: Fn(F) -> u128,
>(numbers: &Numbers<F, R, S, C, P, N>, value: &str) -> (millicores: Option<F>)
    requires
        numbers.inv(),
    ensures
        millicores == cpu_millicores(numbers@, value@),
{
    let value: &str = trim_text(value);
    let (number, by): (&str, Scale) = if let Some(raw) = strip(value, "n") {
        (raw, Scale::Over(1_000_000))
    } else if let Some(raw) = strip(value, "u") {
        (raw, Scale::Over(1_000))
    } else if let Some(raw) = strip(value, "m") {
        (raw, Scale::Times(1))
    } else {
        (value, Scale::Times(1_000))
    };
    match (numbers.read)(number) {
        Some(quantity) => {
            let millicores: F = (numbers.scale)(quantity, by);
            if (numbers.classify)(millicores) == NumberClass::Usable {
                Some(millicores)
            } else {
                None
            }
        },
        None => None,
    }
}

/// The unit at the end of a quantity of memory, with what stands before it.
fn memory_unit<'a>(text: &'a str) -> (parts: Option<(&'a str, u64)>)
    ensures
        memory_parts(text@) == (match parts {
            Some((number, unit)) => Some((number@, unit)),
            None => None,
        }),
{
    if let Some(raw) = strip(text, "Ki") {
        Some((raw, 1_024))
    } else if let Some(raw) = strip(text, "Mi") {
        Some((raw, 1_048_576))
    } else if let Some(raw) = strip(text, "Gi") {
        Some((raw, 1_073_741_824))
    } else if let Some(raw) = strip(text, "Ti") {
        Some((raw, 1_099_511_627_776))
    } else if let Some(raw) = strip(text, "K") {
        Some((raw, 1_000))
    } else if let Some(raw) = strip(text, "M") {
        Some((raw, 1_000_000))
    } else if let Some(raw) = strip(text, "G") {
        Some((raw, 1_000_000_000))
    } else if let Some(raw) = strip(text, "T") {
        Some((raw, 1_000_000_000_000))
    } else {
        None
    }
}

/// The bytes that a text writes: a number of units, rounded to whole bytes, or a whole
/// number of bytes. What is not finite, is negative or is too great to count is
/// refused.
pub fn parse_memory_bytes<
    F: Copy,
    R: Fn(&str) -> Option<F>,
    S: Fn(F, Scale) -> F,
    C: Fn(F) -> NumberClass,
    P: Fn(F, F) -> F,
    N: Fn(F) -> u128,
>(numbers: &Numbers<F, R, S, C, P, N>, value: &str) -> (bytes: Option<i64>)
    requires
        numbers.inv(),
    ensures
        bytes == memory_bytes(numbers@, value@),
{
    let trimmed: &str = trim_text(value);
    match memory_unit(trimmed) {
        Some((number, unit)) => {
            let quantity: F = match (numbers.read)(number) {
                Some(quantity) => quantity,
                None => {
                    return None;
                },
            };
            if (numbers.classify)(quantity) != NumberClass::Usable {
                return None;
            }
            let scaled: F = (numbers.scale)(quantity, Scale::Times(unit));
            if (numbers.classify)(scaled) != NumberClass::Usable {
                return None;
            }
            let bytes: u128 = (numbers.nearest)(scaled);
            if bytes <= 0x7fff_ffff_ffff_ffff {
                Some(bytes as i64)
            } else {
                None
            }
        },
        None => match parse_i64(trimmed) {
            Some(bytes) => if bytes >= 0 {
                Some(bytes)
            } else {
                None
            },
            None => None,
        },
    }
}

/// What is read of a text is usable: millicores are finite and not negative, and bytes
/// are not negative.
pub proof fn readings_are_usable<F>(numbers: NumbersView<F>, text: Seq<char>)
    ensures
        cpu_millicores(numbers, text) matches Some(x) ==> numbers.usable(x),
        memory_bytes(numbers, text) matches Some(bytes) ==> bytes >= 0,
{
}

/// White space around a quantity makes no difference.
pub proof fn white_space_is_ignored<F>(numbers: NumbersView<F>, a: Seq<char>, b: Seq<char>)
    requires
        trimmed(a) == trimmed(b),
    ensures
        cpu_millicores(numbers, a) == cpu_millicores(numbers, b),
        memory_bytes(numbers, a) == memory_bytes(numbers, b),
{
}

/// How many bytes a unit of memory is.
pub open spec fn unit_bytes(suffix: Seq<char>) -> Option<u64> {
    if suffix == "Ki"@ {
        Some(1_024)
    } else if suffix == "Mi"@ {
        Some(1_048_576)
    } else if suffix == "Gi"@ {
        Some(1_073_741_824)
    } else if suffix == "Ti"@ {
        Some(1_099_511_627_776)
    } else if suffix == "K"@ {
        Some(1_000)
    } else if suffix == "M"@ {
        Some(1_000_000)
    } else if suffix == "G"@ {
        Some(1_000_000_000)
    } else if suffix == "T"@ {
        Some(1_000_000_000_000)
    } else {
        None
    }
}

/// Whether the operations are exact on `count` times `unit`: they read the digits of
/// `count`, and their product with `unit` is a usable number whose nearest whole number
/// is the product.
pub open spec fn exact_on<F>(numbers: NumbersView<F>, count: nat, unit: u64) -> bool {
    (numbers.read)(decimal_digits(count)) matches Some(x) && numbers.usable(x) && numbers.usable(
        (numbers.scale)(x, Scale::Times(unit)),
    ) && (numbers.nearest)((numbers.scale)(x, Scale::Times(unit))) == count * unit
}

/// Whether `text` is white space and nothing else.
pub open spec fn is_blank(text: Seq<char>) -> bool {
    forall|i: int| 0 <= i < text.len() ==> is_white_space(#[trigger] text[i])
}

proof fn lemma_trimmed_start(before: Seq<char>, text: Seq<char>)
    requires
        is_blank(before),
        text.len() > 0,
        !is_white_space(text[0]),
    ensures
        trimmed_start(before + text) == text,
    decreases before.len(),
{
    if before.len() == 0 {
        assert(before + text =~= text);
    } else {
        let rest = before.drop_first();
        assert forall|i: int| 0 <= i < rest.len() implies is_white_space(#[trigger] rest[i]) by {
            assert(rest[i] == before[i + 1]);
        }
        assert(is_white_space(before[0]));
        assert((before + text).drop_first() =~= rest + text);
        lemma_trimmed_start(rest, text);
    }
}

proof fn lemma_trimmed_end(text: Seq<char>, after: Seq<char>)
    requires
        is_blank(after),
        text.len() > 0,
        !is_white_space(text.last()),
    ensures
        trimmed_end(text + after) == text,
    decreases after.len(),
{
    if after.len() == 0 {
        assert(text + after =~= text);
    } else {
        let rest = after.drop_last();
        assert forall|i: int| 0 <= i < rest.len() implies is_white_space(#[trigger] rest[i]) by {
            assert(rest[i] == after[i]);
        }
        assert(is_white_space(after[after.len() - 1]));
        assert((text + after).drop_last() =~= text + rest);
        lemma_trimmed_end(text, rest);
    }
}

proof fn lemma_trimmed(before: Seq<char>, text: Seq<char>, after: Seq<char>)
    requires
        is_blank(before),
        is_blank(after),
        text.len() > 0,
        !is_white_space(text[0]),
        !is_white_space(text.last()),
    ensures
        trimmed(before + text + after) == text,
{
    assert(before + text + after =~= before + (text + after));
    lemma_trimmed_start(before, text + after);
    lemma_trimmed_end(text, after);
}

/// A short suffix is told by the last characters.
proof fn lemma_suffix(text: Seq<char>, suffix: Seq<char>)
    requires
        1 <= suffix.len() <= 2,
    ensures
        suffix.is_suffix_of(text) <==> text.len() >= suffix.len() && text.last() == suffix.last()
            && (suffix.len() == 2 ==> text[text.len() - 2] == suffix[0]),
{
    if text.len() >= suffix.len() {
        let tail = text.subrange(text.len() - suffix.len(), text.len() as int);
        assert(tail.last() == text.last());
        if suffix.len() == 2 {
            assert(tail[0] == text[text.len() - 2]);
        }
        if text.last() == suffix.last() && (suffix.len() == 2 ==> text[text.len() - 2]
            == suffix[0]) {
            assert(suffix =~= tail);
        }
    }
}

proof fn lemma_unit_suffixes(text: Seq<char>)
    ensures
        "Ki"@.len() == 2 && "Mi"@.len() == 2 && "Gi"@.len() == 2 && "Ti"@.len() == 2,
        "K"@.len() == 1 && "M"@.len() == 1 && "G"@.len() == 1 && "T"@.len() == 1,
        ({
            let long = text.len() >= 2 && text.last() == 'i';
            &&& "Ki"@.is_suffix_of(text) <==> long && text[text.len() - 2] == 'K'
            &&& "Mi"@.is_suffix_of(text) <==> long && text[text.len() - 2] == 'M'
            &&& "Gi"@.is_suffix_of(text) <==> long && text[text.len() - 2] == 'G'
            &&& "Ti"@.is_suffix_of(text) <==> long && text[text.len() - 2] == 'T'
            &&& "K"@.is_suffix_of(text) <==> text.len() >= 1 && text.last() == 'K'
            &&& "M"@.is_suffix_of(text) <==> text.len() >= 1 && text.last() == 'M'
            &&& "G"@.is_suffix_of(text) <==> text.len() >= 1 && text.last() == 'G'
            &&& "T"@.is_suffix_of(text) <==> text.len() >= 1 && text.last() == 'T'
        }),
{
    reveal_strlit("Ki");
    reveal_strlit("Mi");
    reveal_strlit("Gi");
    reveal_strlit("Ti");
    reveal_strlit("K");
    reveal_strlit("M");
    reveal_strlit("G");
    reveal_strlit("T");
    lemma_suffix(text, "Ki"@);
    lemma_suffix(text, "Mi"@);
    lemma_suffix(text, "Gi"@);
    lemma_suffix(text, "Ti"@);
    lemma_suffix(text, "K"@);
    lemma_suffix(text, "M"@);
    lemma_suffix(text, "G"@);
    lemma_suffix(text, "T"@);
}

proof fn lemma_unit_is_found(number: Seq<char>, suffix: Seq<char>)
    requires
        unit_bytes(suffix) is Some,
    ensures
        memory_parts(number + suffix) == Some((number, unit_bytes(suffix)->0)),
        suffix.len() > 0,
        !is_white_space(suffix.last()),
{
    let text = number + suffix;
    lemma_unit_suffixes(text);
    lemma_unit_suffixes(suffix);
    reveal_strlit("Ki");
    reveal_strlit("Mi");
    reveal_strlit("Gi");
    reveal_strlit("Ti");
    reveal_strlit("K");
    reveal_strlit("M");
    reveal_strlit("G");
    reveal_strlit("T");
    assert(text.last() == suffix.last());
    if suffix.len() == 2 {
        assert(text[text.len() - 2] == suffix[0]);
    }
    assert(stem(text, suffix) =~= number);
}

/// A whole number of units reads as that many times the bytes of the unit, with any
/// white space around it, wherever the operations are exact on it.
pub proof fn whole_units_read_exactly<F>(
    numbers: NumbersView<F>,
    count: nat,
    suffix: Seq<char>,
    before: Seq<char>,
    after: Seq<char>,
)
    requires
        unit_bytes(suffix) is Some,
        exact_on(numbers, count, unit_bytes(suffix)->0),
        count * unit_bytes(suffix)->0 <= i64::MAX,
        is_blank(before),
        is_blank(after),
    ensures
        memory_bytes(numbers, before + (decimal_digits(count) + suffix) + after) == Some(
            (count * unit_bytes(suffix)->0) as i64,
        ),
{
    let digits = decimal_digits(count);
    decimal_digits_read_back(count);
    assert(is_digit(digits[0]));
    lemma_unit_is_found(digits, suffix);
    lemma_trimmed(before, digits + suffix, after);
}

/// A plain whole number of bytes reads as itself, with any white space around it.
pub proof fn whole_bytes_read_back<F>(
    numbers: NumbersView<F>,
    count: nat,
    before: Seq<char>,
    after: Seq<char>,
)
    requires
        count <= i64::MAX,
        is_blank(before),
        is_blank(after),
    ensures
        memory_bytes(numbers, before + decimal_digits(count) + after) == Some(count as i64),
{
    let digits = decimal_digits(count);
    decimal_digits_read_back(count);
    assert(is_digit(digits[0]));
    assert(is_digit(digits[digits.len() - 1]));
    lemma_trimmed(before, digits, after);
    lemma_unit_suffixes(digits);
}

/// Units stand in their proportions: so many mebibytes are 1024 times as many kibibytes,
/// and a number of kilobytes other than none is not that number of kibibytes.
pub proof fn units_are_in_proportion<F>(numbers: NumbersView<F>, count: nat)
    requires
        count <= 1_000_000,
        exact_on(numbers, count, 1_048_576),
        exact_on(numbers, 1024 * count, 1_024),
        exact_on(numbers, count, 1_000),
        exact_on(numbers, count, 1_024),
    ensures
        memory_bytes(numbers, decimal_digits(count) + "Mi"@) == memory_bytes(
            numbers,
            decimal_digits(1024 * count) + "Ki"@,
        ),
        count > 0 ==> memory_bytes(numbers, decimal_digits(count) + "K"@) != memory_bytes(
            numbers,
            decimal_digits(count) + "Ki"@,
        ),
{
    let none = Seq::<char>::empty();
    lemma_unit_suffixes(none);
    reveal_strlit("Ki");
    reveal_strlit("Mi");
    reveal_strlit("Gi");
    reveal_strlit("Ti");
    reveal_strlit("K");
    assert("K"@.len() == 1 && "Ki"@.len() == 2 && "Mi"@.len() == 2);
    assert("Mi"@[0] == 'M' && "Ki"@[0] == 'K');
    let mebibytes = decimal_digits(count) + "Mi"@;
    let kibibytes = decimal_digits(1024 * count) + "Ki"@;
    let few_kibibytes = decimal_digits(count) + "Ki"@;
    let kilobytes = decimal_digits(count) + "K"@;
    whole_units_read_exactly(numbers, count, "Mi"@, none, none);
    whole_units_read_exactly(numbers, 1024 * count, "Ki"@, none, none);
    whole_units_read_exactly(numbers, count, "Ki"@, none, none);
    whole_units_read_exactly(numbers, count, "K"@, none, none);
    assert(none + mebibytes + none =~= mebibytes);
    assert(none + kibibytes + none =~= kibibytes);
    assert(none + few_kibibytes + none =~= few_kibibytes);
    assert(none + kilobytes + none =~= kilobytes);
}

/// A suffix of processor time scales the number before it: `n` makes millicores of
/// billionths of a core, `u` of millionths, `m` of thousandths, and a number without a
/// suffix is of whole cores. White space around it is ignored, and what is not usable is
/// refused.
pub proof fn cpu_suffixes_scale_the_number<F>(
    numbers: NumbersView<F>,
    number: Seq<char>,
    before: Seq<char>,
    after: Seq<char>,
)
    requires
        is_blank(before),
        is_blank(after),
        number.len() > 0,
        !is_white_space(number[0]),
        !is_white_space(number.last()),
    ensures
        reads_scaled(
            numbers,
            number,
            Scale::Over(1_000_000),
            cpu_millicores(numbers, before + (number + seq!['n']) + after),
        ),
        reads_scaled(
            numbers,
            number,
            Scale::Over(1_000),
            cpu_millicores(numbers, before + (number + seq!['u']) + after),
        ),
        reads_scaled(
            numbers,
            number,
            Scale::Times(1),
            cpu_millicores(numbers, before + (number + seq!['m']) + after),
        ),
        number.last() != 'n' && number.last() != 'u' && number.last() != 'm' ==> reads_scaled(
            numbers,
            number,
            Scale::Times(1_000),
            cpu_millicores(numbers, before + number + after),
        ),
{
    reveal_strlit("n");
    reveal_strlit("u");
    reveal_strlit("m");
    assert("n"@ =~= seq!['n'] && "u"@ =~= seq!['u'] && "m"@ =~= seq!['m']);
    let nano = number + seq!['n'];
    let micro = number + seq!['u'];
    let milli = number + seq!['m'];
    lemma_trimmed(before, nano, after);
    lemma_trimmed(before, micro, after);
    lemma_trimmed(before, milli, after);
    lemma_trimmed(before, number, after);
    lemma_cpu_suffixes(nano);
    lemma_cpu_suffixes(micro);
    lemma_cpu_suffixes(milli);
    lemma_cpu_suffixes(number);
    assert(stem(nano, "n"@) =~= number);
    assert(stem(micro, "u"@) =~= number);
    assert(stem(milli, "m"@) =~= number);
}

/// Whether `result` is the number that `number` writes, scaled, where that is finite and
/// not less than zero, and nothing otherwise.
pub open spec fn reads_scaled<F>(
    numbers: NumbersView<F>,
    number: Seq<char>,
    by: Scale,
    result: Option<F>,
) -> bool {
    match (numbers.read)(number) {
        None => result is None,
        Some(x) => if (numbers.classify)((numbers.scale)(x, by)) == NumberClass::Usable {
            result == Some((numbers.scale)(x, by))
        } else {
            result is None
        },
    }
}

proof fn lemma_cpu_suffixes(text: Seq<char>)
    ensures
        "n"@.is_suffix_of(text) <==> text.len() > 0 && text.last() == 'n',
        "u"@.is_suffix_of(text) <==> text.len() > 0 && text.last() == 'u',
        "m"@.is_suffix_of(text) <==> text.len() > 0 && text.last() == 'm',
        "n"@.len() == 1 && "u"@.len() == 1 && "m"@.len() == 1,
{
    reveal_strlit("n");
    reveal_strlit("u");
    reveal_strlit("m");
    lemma_suffix(text, "n"@);
    lemma_suffix(text, "u"@);
    lemma_suffix(text, "m"@);
}

/// A number of units, whole or not, is that number times the bytes of the unit, rounded
/// to the nearest byte. It is refused where the number or the product is not usable, or
/// where the bytes cannot be counted.
pub proof fn memory_units_scale_the_number<F>(
    numbers: NumbersView<F>,
    number: Seq<char>,
    suffix: Seq<char>,
    before: Seq<char>,
    after: Seq<char>,
)
    requires
        unit_bytes(suffix) is Some,
        is_blank(before),
        is_blank(after),
        number.len() > 0,
        !is_white_space(number[0]),
    ensures
        ({
            let result = memory_bytes(numbers, before + (number + suffix) + after);
            match (numbers.read)(number) {
                None => result is None,
                Some(x) => {
                    let product = (numbers.scale)(x, Scale::Times(unit_bytes(suffix)->0));
                    let bytes = (numbers.nearest)(product);
                    if (numbers.classify)(x) == NumberClass::Usable && (numbers.classify)(product)
                        == NumberClass::Usable && bytes < 0x8000_0000_0000_0000 {
                        result matches Some(count) && count == bytes
                    } else {
                        result is None
                    }
                },
            }
        }),
{
    lemma_unit_is_found(number, suffix);
    lemma_trimmed(before, number + suffix, after);
}

/// Without a unit a text is a whole number of bytes: it is read as the integer that it
/// writes, unless that is negative or cannot be counted, and refused otherwise.
pub proof fn numbers_without_a_unit_are_bytes<F>(
    numbers: NumbersView<F>,
    text: Seq<char>,
    before: Seq<char>,
    after: Seq<char>,
)
    requires
        is_blank(before),
        is_blank(after),
        text.len() > 0,
        !is_white_space(text[0]),
        !is_white_space(text.last()),
        integer_of(text) is Some || forall|suffix: Seq<char>| #[trigger]
            unit_bytes(suffix) is Some ==> !suffix.is_suffix_of(text),
    ensures
        ({
            let result = memory_bytes(numbers, before + text + after);
            match integer_of(text) {
                Some(value) => if 0 <= value < 0x8000_0000_0000_0000 {
                    result matches Some(count) && count == value
                } else {
                    result is None
                },
                None => result is None,
            }
        }),
{
    lemma_trimmed(before, text, after);
    lemma_unit_suffixes(text);
    if integer_of(text) is Some {
        only_digits_are_integers(text);
    } else {
        lemma_unit_suffixes("Ki"@);
        assert(unit_bytes("Ki"@) is Some);
        assert(unit_bytes("Mi"@) is Some);
        assert(unit_bytes("Gi"@) is Some);
        assert(unit_bytes("Ti"@) is Some);
        assert(unit_bytes("K"@) is Some);
        assert(unit_bytes("M"@) is Some);
        assert(unit_bytes("G"@) is Some);
        assert(unit_bytes("T"@) is Some);
    }
}

} // verus!
