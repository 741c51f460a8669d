//! Finding the occurrences of a pattern in a text, by the `regex` crate, and
//! replacing them.
//!
//! An occurrence is told by the places of its groups, group 0 being the whole
//! of it. A place is a pair of positions, counted in characters: where the
//! group starts and where it ends. The `regex` crate counts in bytes; the
//! places are counted over here.

use vstd::prelude::*;
use crate::text::{chars_of, push_range};

verus! {

/// The places of the groups of one occurrence; `None` for a group that took
/// no part in it.
pub type Groups = Vec<Option<(usize, usize)>>;

/// What the `regex` crate finds of a pattern in a text: for each occurrence,
/// from left to right, where each of its groups starts and ends, counted in
/// bytes of the text's UTF-8 form. `None` where the pattern does not
/// compile.
pub uninterp spec fn regex_spans(pattern: Seq<char>, text: Seq<char>) -> Option<
    Seq<Seq<Option<(usize, usize)>>>,
>;

/// Compiles the pattern with `regex::Regex::new` and walks the text with
/// `Regex::captures_iter`; of each group of each occurrence it takes
/// `Match::start` and `Match::end`. The contract claims only that the
/// outcome depends on the pattern and the text alone, and names it.
#[verifier::external_body]
fn regex_captures(pattern: &str, text: &str) -> (r: Option<Vec<Groups>>)
    ensures
        r.deep_view() == regex_spans(pattern@, text@),
{
    let re = regex::Regex::new(pattern).ok()?;
    let place = |m: regex::Match| (m.start(), m.end());
    Some(re.captures_iter(text).map(|found| found.iter().map(|group| group.map(place)).collect()).collect())
}

/// How many bytes a character takes in UTF-8.
pub open spec fn utf8_len(c: char) -> nat {
    let code = c as u32;
    if code < 0x80 {
        1
    } else if code < 0x800 {
        2
    } else if code < 0x10000 {
        3
    } else {
        4
    }
}

/// How many characters of `s` are passed, counting on from the character at
/// `index`, where `bytes` bytes lie in front of it, until `wanted` bytes or
/// more are reached, or the text ends.
pub open spec fn chars_before_from(s: Seq<char>, index: int, bytes: nat, wanted: nat) -> int
    decreases s.len() - index,
{
    if index < 0 || index >= s.len() || bytes >= wanted {
        index
    } else {
        chars_before_from(s, index + 1, bytes + utf8_len(s[index]), wanted)
    }
}

/// The position in characters of a position in bytes: how many characters
/// of the text stand in front of the byte with the number `wanted`.
pub open spec fn chars_before(s: Seq<char>, wanted: nat) -> int {
    chars_before_from(s, 0, 0, wanted)
}

/// A position in characters lies in the text or at its end.
pub proof fn lemma_chars_before_bounds(s: Seq<char>, index: int, bytes: nat, wanted: nat)
    requires
        0 <= index <= s.len(),
    ensures
        index <= chars_before_from(s, index, bytes, wanted) <= s.len(),
    decreases s.len() - index,
{
    if index < s.len() && bytes < wanted {
        lemma_chars_before_bounds(s, index + 1, bytes + utf8_len(s[index]), wanted);
    }
}

/// A place counted in bytes, as a place counted in characters.
pub open spec fn place_in_chars(text: Seq<char>, place: (usize, usize)) -> (usize, usize) {
    (chars_before(text, place.0 as nat) as usize, chars_before(text, place.1 as nat) as usize)
}

/// The place of a group counted in bytes, as one counted in characters.
pub open spec fn group_in_chars(text: Seq<char>) -> spec_fn(Option<(usize, usize)>) -> Option<
    (usize, usize),
> {
    |group: Option<(usize, usize)>|
        match group {
            Some(place) => Some(place_in_chars(text, place)),
            None => None,
        }
}

/// The places of the groups of an occurrence counted in bytes, as places
/// counted in characters.
pub open spec fn groups_in_chars(text: Seq<char>) -> spec_fn(Seq<Option<(usize, usize)>>) -> Seq<
    Option<(usize, usize)>,
> {
    |groups: Seq<Option<(usize, usize)>>| groups.map_values(group_in_chars(text))
}

/// How many bytes a character takes in UTF-8.
fn char_width(c: char) -> (r: u128)
    ensures
        r == utf8_len(c),
{
    let code: u32 = c as u32;
    if code < 0x80 {
        1
    } else if code < 0x800 {
        2
    } else if code < 0x10000 {
        3
    } else {
        4
    }
}

/// The position in characters of a position in bytes.
fn char_position(text: &Vec<char>, wanted: usize) -> (r: usize)
    ensures
        r == chars_before(text@, wanted as nat),
        r <= text.len(),
{
    let mut index: usize = 0;
    let mut bytes: u128 = 0;
    while index < text.len() && bytes < wanted as u128
        invariant
            index <= text.len(),
            bytes <= 4 * index,
            chars_before(text@, wanted as nat) == chars_before_from(
                text@,
                index as int,
                bytes as nat,
                wanted as nat,
            ),
        decreases text.len() - index,
    {
        bytes = bytes + char_width(text[index]);
        index += 1;
    }
    index
}

/// Counts the places of the groups of one occurrence in characters.
fn convert_groups(text: &Vec<char>, groups: &Groups) -> (r: Groups)
    ensures
        r.deep_view() == groups_in_chars(text@)(groups.deep_view()),
{
    let mut out: Groups = Vec::new();
    let mut k: usize = 0;
    while k < groups.len()
        invariant
            k <= groups.len(),
            out.len() == k,
            forall|j: int|
                0 <= j < k ==> (#[trigger] out[j]) == group_in_chars(text@)(groups[j]),
        decreases groups.len() - k,
    {
        let converted = match groups[k] {
            Some(place) => Some((char_position(text, place.0), char_position(text, place.1))),
            None => None,
        };
        out.push(converted);
        k += 1;
    }
    assert(out.deep_view() =~= groups.deep_view().map_values(group_in_chars(text@)));
    out
}

/// Counts the places of the groups of every occurrence in characters.
fn convert_spans(text: &Vec<char>, spans: &Vec<Groups>) -> (r: Vec<Groups>)
    ensures
        r.deep_view() == spans.deep_view().map_values(groups_in_chars(text@)),
{
    let mut out: Vec<Groups> = Vec::new();
    let mut m: usize = 0;
    while m < spans.len()
        invariant
            m <= spans.len(),
            out.len() == m,
            forall|j: int|
                0 <= j < m ==> (#[trigger] out[j]).deep_view() == groups_in_chars(text@)(
                    spans[j].deep_view(),
                ),
        decreases spans.len() - m,
    {
        out.push(convert_groups(text, &spans[m]));
        m += 1;
    }
    assert(out.deep_view() =~= spans.deep_view().map_values(groups_in_chars(text@)));
    out
}

/// Is this a place in a text of `len` characters?
pub open spec fn is_place(place: (usize, usize), len: nat) -> bool {
    place.0 <= place.1 <= len
}

/// Are these the groups of an occurrence in a text of `len` characters that
/// starts at `from` or behind it: is group 0 there, and is every group a
/// place in the text?
pub open spec fn is_occurrence(groups: Seq<Option<(usize, usize)>>, from: nat, len: nat) -> bool {
    &&& groups.len() > 0
    &&& groups[0] is Some
    &&& from <= groups[0].unwrap().0
    &&& forall|k: int|
        0 <= k < groups.len() ==> ((#[trigger] groups[k]) matches Some(place) ==> is_place(
            place,
            len,
        ))
}

/// Where the occurrence in front of the one at `index` ends; the start of
/// the text for the first.
pub open spec fn end_before(spans: Seq<Seq<Option<(usize, usize)>>>, index: int) -> nat {
    if index <= 0 {
        0
    } else {
        spans[index - 1][0].unwrap().1 as nat
    }
}

/// Do the occurrences lie in a text of `len` characters, one behind the
/// other?
pub open spec fn in_order(spans: Seq<Seq<Option<(usize, usize)>>>, len: nat) -> bool {
    forall|m: int|
        0 <= m < spans.len() ==> is_occurrence(#[trigger] spans[m], end_before(spans, m), len)
}

/// The occurrences of a pattern in a text, their places counted in
/// characters: what the `regex` crate finds, where the pattern compiles and
/// the occurrences lie in the text one behind the other; else none.
#[verifier::opaque]
pub open spec fn occurrences(pattern: Seq<char>, text: Seq<char>) -> Seq<
    Seq<Option<(usize, usize)>>,
> {
    match regex_spans(pattern, text) {
        Some(spans) => if in_order(spans.map_values(groups_in_chars(text)), text.len()) {
            spans.map_values(groups_in_chars(text))
        } else {
            Seq::empty()
        },
        None => Seq::empty(),
    }
}

/// Tells whether these are the groups of an occurrence.
fn check_occurrence(groups: &Groups, from: usize, len: usize) -> (r: bool)
    ensures
        r == is_occurrence(groups.deep_view(), from as nat, len as nat),
{
    if groups.len() == 0 {
        return false;
    }
    match groups[0] {
        Some(place) => {
            if from > place.0 {
                return false;
            }
        },
        None => {
            return false;
        },
    }
    let mut k: usize = 0;
    while k < groups.len()
        invariant
            k <= groups.len(),
            forall|j: int|
                0 <= j < k ==> ((#[trigger] groups.deep_view()[j]) matches Some(place)
                    ==> is_place(place, len as nat)),
        decreases groups.len() - k,
    {
        match groups[k] {
            Some(place) => {
                if !(place.0 <= place.1 && place.1 <= len) {
                    assert(groups.deep_view()[k as int] == Some(place));
                    return false;
                }
            },
            None => {},
        }
        k += 1;
    }
    true
}

/// Tells whether the occurrences lie in the text, one behind the other.
fn check_order(spans: &Vec<Groups>, len: usize) -> (r: bool)
    ensures
        r == in_order(spans.deep_view(), len as nat),
{
    let ghost all = spans.deep_view();
    let mut from: usize = 0;
    let mut m: usize = 0;
    while m < spans.len()
        invariant
            m <= spans.len(),
            all == spans.deep_view(),
            from == end_before(all, m as int),
            forall|j: int|
                0 <= j < m ==> is_occurrence(#[trigger] all[j], end_before(all, j), len as nat),
        decreases spans.len() - m,
    {
        assert(all[m as int] == spans[m as int].deep_view());
        if !check_occurrence(&spans[m], from, len) {
            return false;
        }
        from = match spans[m][0] {
            Some(place) => place.1,
            None => from,
        };
        m += 1;
    }
    true
}

/// Finds the occurrences of a pattern in a text.
pub fn find_all(pattern: &str, text: &str) -> (r: Vec<Groups>)
    ensures
        r.deep_view() == occurrences(pattern@, text@),
        in_order(r.deep_view(), text@.len()),
{
    proof {
        reveal(occurrences);
    }
    let chars = chars_of(text);
    match regex_captures(pattern, text) {
        Some(spans) => {
            let found = convert_spans(&chars, &spans);
            if check_order(&found, chars.len()) {
                return found;
            }
        },
        None => {},
    }
    let none: Vec<Groups> = Vec::new();
    assert(none.deep_view() =~= Seq::empty());
    none
}

/// What a group of an occurrence holds; nothing for a group that is not
/// there.
pub open spec fn group_text(text: Seq<char>, groups: Seq<Option<(usize, usize)>>, k: int) -> Seq<
    char,
> {
    if 0 <= k < groups.len() {
        match groups[k] {
            Some(place) => text.subrange(place.0 as int, place.1 as int),
            None => Seq::empty(),
        }
    } else {
        Seq::empty()
    }
}

/// What a group of an occurrence holds.
pub(crate) fn get_group(text: &Vec<char>, groups: &Groups, k: usize) -> (r: String)
    requires
        forall|j: int|
            0 <= j < groups.len() ==> ((#[trigger] groups.deep_view()[j]) matches Some(place)
                ==> is_place(place, text@.len())),
    ensures
        r@ == group_text(text@, groups.deep_view(), k as int),
{
    let mut out = String::new();
    if k < groups.len() {
        match groups[k] {
            Some(place) => {
                assert(groups.deep_view()[k as int] == Some(place));
                push_range(&mut out, text, place.0, place.1);
            },
            None => {},
        }
    }
    out
}

/// The text up to the end of the occurrence at `count - 1`, with each of
/// the first `count` occurrences replaced.
pub open spec fn replaced_upto(
    text: Seq<char>,
    spans: Seq<Seq<Option<(usize, usize)>>>,
    replacements: Seq<Seq<char>>,
    count: int,
) -> Seq<char>
    decreases count,
{
    if count <= 0 {
        Seq::empty()
    } else {
        replaced_upto(text, spans, replacements, count - 1) + text.subrange(
            end_before(spans, count - 1) as int,
            spans[count - 1][0].unwrap().0 as int,
        ) + replacements[count - 1]
    }
}

/// The text with each occurrence replaced by the replacement of the same
/// index; what stands between the occurrences is kept.
pub open spec fn replaced_all(
    text: Seq<char>,
    spans: Seq<Seq<Option<(usize, usize)>>>,
    replacements: Seq<Seq<char>>,
) -> Seq<char> {
    replaced_upto(text, spans, replacements, spans.len() as int) + text.subrange(
        end_before(spans, spans.len() as int) as int,
        text.len() as int,
    )
}

/// Replaces each occurrence by the replacement of the same index.
pub(crate) fn replace_all(text: &Vec<char>, spans: &Vec<Groups>, replacements: &Vec<String>) -> (r: String)
    requires
        in_order(spans.deep_view(), text@.len()),
        replacements.len() == spans.len(),
    ensures
        r@ == replaced_all(text@, spans.deep_view(), replacements.deep_view()),
{
    let ghost all = spans.deep_view();
    let ghost with = replacements.deep_view();
    let mut out = String::new();
    let mut from: usize = 0;
    let mut m: usize = 0;
    while m < spans.len()
        invariant
            m <= spans.len(),
            all == spans.deep_view(),
            with == replacements.deep_view(),
            replacements.len() == spans.len(),
            in_order(all, text@.len()),
            from == end_before(all, m as int),
            from <= text.len(),
            out@ == replaced_upto(text@, all, with, m as int),
        decreases spans.len() - m,
    {
        assert(all[m as int] == spans[m as int].deep_view());
        assert(is_occurrence(all[m as int], end_before(all, m as int), text@.len()));
        assert(spans[m as int].deep_view()[0] == spans[m as int][0]);
        let place = match spans[m][0] {
            Some(place) => place,
            None => (from, from),
        };
        push_range(&mut out, text, from, place.0);
        out.append(replacements[m].as_str());
        assert(with[m as int] == replacements[m as int]@);
        from = place.1;
        m += 1;
    }
    push_range(&mut out, text, from, text.len());
    out
}

} // verus!
