//! The metrics addresses of the validators that a benchmark watches,
//! read from a comma-separated list of endpoints.

use vstd::prelude::*;
use vstd::string::*;

use crate::benchmark::Benchmark;
use crate::text::{from_chars, to_chars};

verus! {

/// Whether a character is white space: whether it has the Unicode
/// property White_Space. These are the characters tab to carriage return,
/// the space, the next-line control, the no-break space, the ogham space
/// mark, the spaces from en quad to hair space, the line and paragraph
/// separators, the narrow no-break space, the medium mathematical space
/// and the ideographic space.
pub open spec fn is_whitespace(character: char) -> bool {
    let code = character as u32;
    ||| 0x09 <= code <= 0x0D
    ||| code == 0x20
    ||| code == 0x85
    ||| code == 0xA0
    ||| code == 0x1680
    ||| 0x2000 <= code <= 0x200A
    ||| code == 0x2028
    ||| code == 0x2029
    ||| code == 0x202F
    ||| code == 0x205F
    ||| code == 0x3000
}

/// `char::is_whitespace`: whether the character has the Unicode property
/// White_Space.
#[verifier::external_body]
fn char_is_whitespace(character: char) -> (white: bool)
    ensures
        white == is_whitespace(character),
{
    character.is_whitespace()
}

/// `text` without the white space at its start.
pub open spec fn trim_start(text: Seq<char>) -> Seq<char>
    decreases text.len(),
{
    if text.len() > 0 && is_whitespace(text[0]) {
        trim_start(text.drop_first())
    } else {
        text
    }
}

/// `text` without the white space at its end.
pub open spec fn trim_end(text: Seq<char>) -> Seq<char>
    decreases text.len(),
{
    if text.len() > 0 && is_whitespace(text.last()) {
        trim_end(text.drop_last())
    } else {
        text
    }
}

/// `text` without the white space at its start and at its end.
pub open spec fn trimmed(text: Seq<char>) -> Seq<char> {
    trim_end(trim_start(text))
}

/// The pieces of `text` between its commas: one more than it has commas.
pub open spec fn split_at_commas(text: Seq<char>) -> Seq<Seq<char>>
    decreases text.len(),
{
    if text.len() == 0 {
        seq![Seq::empty()]
    } else {
        let before = split_at_commas(text.drop_last());
        if text.last() == ',' {
            before.push(Seq::empty())
        } else {
            before.drop_last().push(before.last().push(text.last()))
        }
    }
}

/// The address of the metrics of the validator at `endpoint`.
pub open spec fn metrics_address(endpoint: Seq<char>) -> Seq<char> {
    "http://"@ + trimmed(endpoint) + "/metrics"@
}

/// `text` without the white space around it.
pub fn trim(text: &Vec<char>) -> (inner: Vec<char>)
    ensures
        inner@ == trimmed(text@),
{
    let len: usize = text.len();
    let mut start: usize = 0;
    assert(text@.subrange(0, len as int) =~= text@);
    while start < len && char_is_whitespace(text[start])
        invariant
            len == text@.len(),
            start <= len,
            trim_start(text@) == trim_start(text@.subrange(start as int, len as int)),
        decreases len - start,
    {
        assert(text@.subrange(start as int, len as int).drop_first() =~= text@.subrange(
            start + 1,
            len as int,
        ));
        start += 1;
    }
    let mut end: usize = len;
    while end > start && char_is_whitespace(text[end - 1])
        invariant
            len == text@.len(),
            start <= end <= len,
            trim_start(text@) == text@.subrange(start as int, len as int),
            trimmed(text@) == trim_end(text@.subrange(start as int, end as int)),
        decreases end - start,
    {
        assert(text@.subrange(start as int, end as int).drop_last() =~= text@.subrange(
            start as int,
            end - 1,
        ));
        end -= 1;
    }
    let mut inner: Vec<char> = Vec::new();
    let mut i: usize = start;
    while i < end
        invariant
            start <= i <= end <= text@.len(),
            inner@ == text@.subrange(start as int, i as int),
        decreases end - i,
    {
        inner.push(text[i]);
        assert(text@.subrange(start as int, i + 1) =~= text@.subrange(start as int, i as int).push(
            text@[i as int],
        ));
        i += 1;
    }
    inner
}

/// The address of the metrics of the validator at `endpoint`.
fn address_of(endpoint: &Vec<char>) -> (address: String)
    ensures
        address@ == metrics_address(endpoint@),
{
    let mut address = String::from_str("http://");
    address.append(from_chars(&trim(endpoint)).as_str());
    address.append("/metrics");
    address
}

impl Benchmark {
    /// The metrics addresses of the validators named in
    /// `health_check_endpoints`, a list of endpoints separated by commas.
    /// Each endpoint, without the white space around it, stands between
    /// `http://` and `/metrics`.
    pub fn metrics_addresses(health_check_endpoints: &str) -> (addresses: Vec<String>)
        ensures
            addresses@.len() == split_at_commas(health_check_endpoints@).len(),
            forall|i: int|
                0 <= i < addresses@.len() ==> (#[trigger] addresses@[i])@ == metrics_address(
                    split_at_commas(health_check_endpoints@)[i],
                ),
    {
        let chars = to_chars(health_check_endpoints);
        let mut addresses: Vec<String> = Vec::new();
        let mut piece: Vec<char> = Vec::new();
        let mut i: usize = 0;
        assert(chars@.take(0) =~= Seq::<char>::empty());
        while i < chars.len()
            invariant
                i <= chars@.len(),
                split_at_commas(chars@.take(i as int)).len() == addresses@.len() + 1,
                split_at_commas(chars@.take(i as int)).last() == piece@,
                forall|j: int|
                    0 <= j < addresses@.len() ==> (#[trigger] addresses@[j])@ == metrics_address(
                        split_at_commas(chars@.take(i as int))[j],
                    ),
            decreases chars@.len() - i,
        {
            let character = chars[i];
            proof {
                assert(chars@.take(i + 1).drop_last() =~= chars@.take(i as int));
                assert(chars@.take(i + 1).last() == character);
            }
            if character == ',' {
                addresses.push(address_of(&piece));
                piece = Vec::new();
            } else {
                piece.push(character);
            }
            i += 1;
        }
        assert(chars@.take(i as int) =~= chars@);
        addresses.push(address_of(&piece));
        addresses
    }
}

/// An endpoint that is written with blanks around it has the address of
/// the endpoint without them, as long as it neither starts nor ends with
/// white space itself.
pub proof fn lemma_blanks_around_endpoint(endpoint: Seq<char>, before: nat, after: nat)
    requires
        endpoint.len() > 0,
        !is_whitespace(endpoint.first()),
        !is_whitespace(endpoint.last()),
    ensures
        metrics_address(
            Seq::new(before, |i: int| ' ') + endpoint + Seq::new(after, |i: int| ' '),
        ) == metrics_address(endpoint),
{
    let padded = Seq::new(before, |i: int| ' ') + endpoint + Seq::new(after, |i: int| ' ');
    lemma_trim_start_blanks(endpoint + Seq::new(after, |i: int| ' '), before);
    assert(padded =~= Seq::new(before, |i: int| ' ') + (endpoint + Seq::new(after, |i: int| ' ')));
    lemma_trim_end_blanks(endpoint, after);
}

/// Blanks in front of a text that does not start with white space are all
/// that is trimmed off its start.
proof fn lemma_trim_start_blanks(text: Seq<char>, blanks: nat)
    requires
        text.len() > 0,
        !is_whitespace(text.first()),
    ensures
        trim_start(Seq::new(blanks, |i: int| ' ') + text) == text,
    decreases blanks,
{
    let padded = Seq::new(blanks, |i: int| ' ') + text;
    if blanks == 0 {
        assert(padded =~= text);
    } else {
        assert(padded[0] == ' ');
        assert(padded.drop_first() =~= Seq::new((blanks - 1) as nat, |i: int| ' ') + text);
        lemma_trim_start_blanks(text, (blanks - 1) as nat);
    }
}

/// Blanks behind a text that does not end with white space are all that
/// is trimmed off its end.
proof fn lemma_trim_end_blanks(text: Seq<char>, blanks: nat)
    requires
        text.len() > 0,
        !is_whitespace(text.last()),
    ensures
        trim_end(text + Seq::new(blanks, |i: int| ' ')) == text,
    decreases blanks,
{
    let padded = text + Seq::new(blanks, |i: int| ' ');
    if blanks == 0 {
        assert(padded =~= text);
    } else {
        assert(padded.last() == ' ');
        assert(padded.drop_last() =~= text + Seq::new((blanks - 1) as nat, |i: int| ' '));
        lemma_trim_end_blanks(text, (blanks - 1) as nat);
    }
}

} // verus!
