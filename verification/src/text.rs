//! Text as sequences of characters: decimal numbers written and read,
//! and the first occurrence of a pattern replaced.

use vstd::prelude::*;
use vstd::string::*;

verus! {

/// `String::push` appends one character.
pub assume_specification[ String::push ](text: &mut String, character: char)
    ensures
        final(text)@ == old(text)@.push(character),
;

/// The character of the decimal digit `digit`.
pub open spec fn digit_char(digit: int) -> char {
    ((48 + digit) as u8) as char
}

/// `character` is one of `0` to `9`.
pub open spec fn is_digit(character: char) -> bool {
    '0' <= character <= '9'
}

/// The value of the decimal digit `character`.
pub open spec fn digit_value(character: char) -> int {
    character as u8 - 48
}

/// The decimal digits of `number`, without leading zeros.
pub open spec fn decimal(number: nat) -> Seq<char>
    decreases number,
{
    if number < 10 {
        seq![digit_char(number as int)]
    } else {
        decimal(number / 10).push(digit_char((number % 10) as int))
    }
}

/// `number` in decimal, with zeros in front up to `width` characters.
pub open spec fn zero_padded(number: nat, width: nat) -> Seq<char> {
    let digits = decimal(number);
    if digits.len() >= width {
        digits
    } else {
        Seq::new((width - digits.len()) as nat, |i: int| '0') + digits
    }
}

/// Every character of `text` is a decimal digit.
pub open spec fn all_digits(text: Seq<char>) -> bool {
    forall|i: int| 0 <= i < text.len() ==> is_digit(#[trigger] text[i])
}

/// The number that the decimal digits `digits` stand for.
pub open spec fn digits_value(digits: Seq<char>) -> nat
    decreases digits.len(),
{
    if digits.len() == 0 {
        0
    } else {
        (digits_value(digits.drop_last()) * 10 + digit_value(digits.last())) as nat
    }
}

/// The number that `text` stands for as an unsigned decimal of at most
/// `max`: digits, at least one, after an optional `+`.
pub open spec fn parse_unsigned(text: Seq<char>, max: nat) -> Option<nat> {
    let digits = if text.len() > 0 && text[0] == '+' {
        text.subrange(1, text.len() as int)
    } else {
        text
    };
    if digits.len() > 0 && all_digits(digits) && digits_value(digits) <= max {
        Some(digits_value(digits))
    } else {
        None
    }
}

/// The characters of `text`.
pub fn to_chars(text: &str) -> (chars: Vec<char>)
    ensures
        chars@ == text@,
{
    let len = text.unicode_len();
    let mut chars: Vec<char> = Vec::new();
    let mut i: usize = 0;
    while i < len
        invariant
            len == text@.len(),
            i <= len,
            chars@ == text@.take(i as int),
        decreases len - i,
    {
        chars.push(text.get_char(i));
        assert(text@.take(i as int).push(text@[i as int]) =~= text@.take(i + 1));
        i += 1;
    }
    assert(text@.take(len as int) =~= text@);
    chars
}

/// The string made of `chars`.
pub fn from_chars(chars: &Vec<char>) -> (text: String)
    ensures
        text@ == chars@,
{
    let mut text = String::new();
    let mut i: usize = 0;
    while i < chars.len()
        invariant
            i <= chars@.len(),
            text@ == chars@.take(i as int),
        decreases chars@.len() - i,
    {
        text.push(chars[i]);
        assert(chars@.take(i as int).push(chars@[i as int]) =~= chars@.take(i + 1));
        i += 1;
    }
    assert(chars@.take(i as int) =~= chars@);
    text
}

/// Appends the decimal digits of `number` to `chars`.
pub fn push_decimal(chars: &mut Vec<char>, number: u128)
    ensures
        final(chars)@ == old(chars)@ + decimal(number as nat),
    decreases number,
{
    if number >= 10 {
        push_decimal(chars, number / 10);
    }
    let digit: u8 = (number % 10) as u8;
    chars.push((48u8 + digit) as char);
    proof {
        if number >= 10 {
            assert(old(chars)@ + decimal(number as nat) =~= (old(chars)@ + decimal(
                (number / 10) as nat,
            )).push(digit_char((number % 10) as int)));
        } else {
            assert(old(chars)@ + decimal(number as nat) =~= old(chars)@.push(
                digit_char(number as int),
            ));
        }
    }
}

/// `number` in decimal, with zeros in front up to `width` characters.
pub fn zero_padded_decimal(number: u128, width: usize) -> (chars: Vec<char>)
    ensures
        chars@ == zero_padded(number as nat, width as nat),
{
    let mut digits: Vec<char> = Vec::new();
    push_decimal(&mut digits, number);
    assert(digits@ =~= decimal(number as nat));
    if digits.len() >= width {
        return digits;
    }
    let zeros: usize = width - digits.len();
    let mut chars: Vec<char> = Vec::new();
    let mut i: usize = 0;
    while i < zeros
        invariant
            i <= zeros,
            chars@ == Seq::new(i as nat, |k: int| '0'),
        decreases zeros - i,
    {
        chars.push('0');
        assert(chars@ =~= Seq::new((i + 1) as nat, |k: int| '0'));
        i += 1;
    }
    let mut j: usize = 0;
    while j < digits.len()
        invariant
            j <= digits@.len(),
            chars@ == Seq::new(zeros as nat, |k: int| '0') + digits@.take(j as int),
        decreases digits@.len() - j,
    {
        chars.push(digits[j]);
        assert(Seq::new(zeros as nat, |k: int| '0') + digits@.take(j + 1) =~= (Seq::new(
            zeros as nat,
            |k: int| '0',
        ) + digits@.take(j as int)).push(digits@[j as int]));
        j += 1;
    }
    assert(digits@.take(j as int) =~= digits@);
    chars
}

/// Reading more digits never lowers the number read.
proof fn lemma_digits_value_grows(digits: Seq<char>, shorter: int)
    requires
        0 <= shorter <= digits.len(),
        all_digits(digits),
    ensures
        digits_value(digits.take(shorter)) <= digits_value(digits),
    decreases digits.len() - shorter,
{
    if shorter < digits.len() {
        let next = digits.take(shorter + 1);
        assert(next.drop_last() =~= digits.take(shorter));
        assert(next.last() == digits[shorter]);
        assert(is_digit(digits[shorter]));
        lemma_digits_value_grows(digits, shorter + 1);
    } else {
        assert(digits.take(shorter) =~= digits);
    }
}

/// Reads `text` as an unsigned decimal number of at most `max`.
pub fn parse_decimal(text: &Vec<char>, max: u32) -> (number: Option<u32>)
    ensures
        match number {
            Some(value) => parse_unsigned(text@, max as nat) == Some(value as nat),
            None => parse_unsigned(text@, max as nat) is None,
        },
{
    let start: usize = if text.len() > 0 && text[0] == '+' {
        1
    } else {
        0
    };
    let ghost digits = text@.subrange(start as int, text@.len() as int);
    proof {
        if start == 0 {
            assert(digits =~= text@);
        }
    }
    if start == text.len() {
        return None;
    }
    let mut value: u64 = 0;
    let mut i: usize = start;
    assert(digits.take(0) =~= Seq::<char>::empty());
    while i < text.len()
        invariant
            start <= i <= text@.len(),
            digits == text@.subrange(start as int, text@.len() as int),
            digits.len() > 0,
            parse_unsigned(text@, max as nat) == if all_digits(digits) && digits_value(digits)
                <= max {
                Some(digits_value(digits))
            } else {
                None
            },
            all_digits(digits.take(i - start)),
            value == digits_value(digits.take(i - start)),
            value <= max,
        decreases text@.len() - i,
    {
        let character = text[i];
        let ghost longer = digits.take(i - start + 1);
        proof {
            assert(longer.drop_last() =~= digits.take(i - start));
            assert(longer.last() == character);
        }
        if !('0' <= character && character <= '9') {
            assert(!is_digit(digits[i - start]));
            return None;
        }
        value = value * 10 + ((character as u8) - 48) as u64;
        proof {
            assert forall|k: int| 0 <= k < longer.len() implies is_digit(#[trigger] longer[k]) by {
                if k < i - start {
                    assert(longer[k] == digits.take(i - start)[k]);
                }
            }
        }
        if value > max as u64 {
            proof {
                if all_digits(digits) {
                    lemma_digits_value_grows(digits, i - start + 1);
                }
            }
            return None;
        }
        i += 1;
    }
    assert(digits.take(i - start) =~= digits);
    Some(value as u32)
}

/// `pattern` stands in `text` at position `at`.
pub open spec fn occurs_at(text: Seq<char>, pattern: Seq<char>, at: int) -> bool {
    &&& 0 <= at
    &&& at + pattern.len() <= text.len()
    &&& text.subrange(at, at + pattern.len()) == pattern
}

/// The first position from `from` on at which `pattern` stands in `text`,
/// or -1 if there is none.
pub open spec fn first_occurrence(text: Seq<char>, pattern: Seq<char>, from: int) -> int
    decreases text.len() + 1 - from,
{
    if from < 0 || from + pattern.len() > text.len() {
        -1
    } else if occurs_at(text, pattern, from) {
        from
    } else {
        first_occurrence(text, pattern, from + 1)
    }
}

/// `text` with the first occurrence of `pattern` replaced by
/// `replacement`; `text` itself if `pattern` does not occur.
pub open spec fn replace_first(text: Seq<char>, pattern: Seq<char>, replacement: Seq<char>) -> Seq<
    char,
> {
    let at = first_occurrence(text, pattern, 0);
    if at < 0 {
        text
    } else {
        text.subrange(0, at) + replacement + text.subrange(
            at + pattern.len(),
            text.len() as int,
        )
    }
}

/// Whether `pattern` stands in `text` at position `at`.
fn matches_at(text: &Vec<char>, pattern: &Vec<char>, at: usize) -> (found: bool)
    requires
        at + pattern@.len() <= text@.len(),
    ensures
        found == occurs_at(text@, pattern@, at as int),
{
    let len: usize = text.len();
    let mut k: usize = 0;
    while k < pattern.len()
        invariant
            at + pattern@.len() <= text@.len() == len,
            k <= pattern@.len(),
            forall|j: int| 0 <= j < k ==> text@[at + j] == #[trigger] pattern@[j],
        decreases pattern@.len() - k,
    {
        if text[at + k] != pattern[k] {
            assert(text@.subrange(at as int, at + pattern@.len())[k as int] != pattern@[k as int]);
            return false;
        }
        k += 1;
    }
    assert(text@.subrange(at as int, at + pattern@.len()) =~= pattern@);
    true
}

/// Where `pattern` first stands in `text`, if anywhere.
pub fn find_first(text: &Vec<char>, pattern: &Vec<char>) -> (found: Option<usize>)
    ensures
        match found {
            Some(at) => first_occurrence(text@, pattern@, 0) == at,
            None => first_occurrence(text@, pattern@, 0) == -1,
        },
{
    if pattern.len() > text.len() {
        return None;
    }
    let last: usize = text.len() - pattern.len();
    let mut at: usize = 0;
    while at <= last
        invariant
            last == text@.len() - pattern@.len(),
            at <= last,
            first_occurrence(text@, pattern@, 0) == first_occurrence(text@, pattern@, at as int),
        decreases last - at,
    {
        if matches_at(text, pattern, at) {
            return Some(at);
        }
        if at == last {
            assert(first_occurrence(text@, pattern@, at + 1) == -1);
            return None;
        }
        at += 1;
    }
    None
}

/// Replaces the first occurrence of `pattern` in `text` by `replacement`.
pub fn replace_first_occurrence(
    text: &Vec<char>,
    pattern: &Vec<char>,
    replacement: &Vec<char>,
) -> (replaced: Vec<char>)
    ensures
        replaced@ == replace_first(text@, pattern@, replacement@),
{
    let at: usize = match find_first(text, pattern) {
        Some(at) => at,
        None => {
            let mut replaced: Vec<char> = Vec::new();
            let mut i: usize = 0;
            while i < text.len()
                invariant
                    i <= text@.len(),
                    replaced@ == text@.take(i as int),
                decreases text@.len() - i,
            {
                replaced.push(text[i]);
                assert(text@.take(i as int).push(text@[i as int]) =~= text@.take(i + 1));
                i += 1;
            }
            assert(text@.take(i as int) =~= text@);
            return replaced;
        },
    };
    proof {
        lemma_first_occurrence_found(text@, pattern@, 0);
    }
    let len: usize = text.len();
    assert(at + pattern@.len() <= len);
    let rest: usize = at + pattern.len();
    let mut replaced: Vec<char> = Vec::new();
    let mut i: usize = 0;
    while i < at
        invariant
            i <= at <= text@.len(),
            replaced@ == text@.take(i as int),
        decreases at - i,
    {
        replaced.push(text[i]);
        assert(text@.take(i as int).push(text@[i as int]) =~= text@.take(i + 1));
        i += 1;
    }
    let mut j: usize = 0;
    while j < replacement.len()
        invariant
            j <= replacement@.len(),
            replaced@ == text@.take(at as int) + replacement@.take(j as int),
        decreases replacement@.len() - j,
    {
        replaced.push(replacement[j]);
        assert(text@.take(at as int) + replacement@.take(j + 1) =~= (text@.take(at as int)
            + replacement@.take(j as int)).push(replacement@[j as int]));
        j += 1;
    }
    assert(replacement@.take(j as int) =~= replacement@);
    let mut k: usize = rest;
    while k < text.len()
        invariant
            rest <= k <= text@.len(),
            replaced@ == text@.take(at as int) + replacement@ + text@.subrange(
                rest as int,
                k as int,
            ),
        decreases text@.len() - k,
    {
        replaced.push(text[k]);
        assert(text@.take(at as int) + replacement@ + text@.subrange(rest as int, k + 1) =~= (
        text@.take(at as int) + replacement@ + text@.subrange(rest as int, k as int)).push(
            text@[k as int],
        ));
        k += 1;
    }
    assert(text@.take(at as int) =~= text@.subrange(0, at as int));
    replaced
}

/// A first occurrence that was found is an occurrence, and the first from
/// where the search began.
pub proof fn lemma_first_occurrence_found(text: Seq<char>, pattern: Seq<char>, from: int)
    requires
        0 <= from,
        first_occurrence(text, pattern, from) >= 0,
    ensures
        from <= first_occurrence(text, pattern, from),
        occurs_at(text, pattern, first_occurrence(text, pattern, from)),
        forall|at: int|
            from <= at < first_occurrence(text, pattern, from) ==> !occurs_at(text, pattern, at),
    decreases text.len() + 1 - from,
{
    if from + pattern.len() <= text.len() && !occurs_at(text, pattern, from) {
        lemma_first_occurrence_found(text, pattern, from + 1);
    }
}

/// `number` in decimal, with a comma between every three digits, counted
/// from the right.
pub open spec fn grouped(number: nat) -> Seq<char>
    decreases number,
{
    if number < 1000 {
        decimal(number)
    } else {
        grouped(number / 1000) + seq![','] + zero_padded(number % 1000, 3)
    }
}

} // verus!
