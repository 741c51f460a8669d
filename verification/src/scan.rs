//! Locating the first array of objects inside free-form model output.
//!
//! The payload is the first `[` whose next character, JSON whitespace aside,
//! is `{`, up to the `]` that closes it. Brackets inside string literals do
//! not count towards the nesting, and a backslash inside a string literal
//! takes the next character with it.

use vstd::prelude::*;

verus! {

/// The four characters that JSON treats as whitespace.
pub open spec fn is_json_space(c: char) -> bool {
    c == ' ' || c == '\t' || c == '\n' || c == '\r'
}

/// The first position at or after `i` that holds no JSON whitespace, or the
/// length of `s` where only whitespace follows.
pub open spec fn skip_spaces(s: Seq<char>, i: int) -> int
    decreases s.len() - i,
{
    if 0 <= i < s.len() && is_json_space(s[i]) {
        skip_spaces(s, i + 1)
    } else {
        i
    }
}

/// Does an array of objects open at position `i`: a `[` followed, whitespace
/// aside, by `{`?
pub open spec fn opens_object_array(s: Seq<char>, i: int) -> bool {
    &&& 0 <= i < s.len()
    &&& s[i] == '['
    &&& skip_spaces(s, i + 1) < s.len()
    &&& s[skip_spaces(s, i + 1)] == '{'
}

/// The first position at or after `i` where an array of objects opens.
pub open spec fn first_opening(s: Seq<char>, i: int) -> Option<int>
    decreases s.len() - i,
{
    if i < 0 || i >= s.len() {
        None
    } else if opens_object_array(s, i) {
        Some(i)
    } else {
        first_opening(s, i + 1)
    }
}

/// Where the scanner stands inside an array: how many arrays are open, and
/// whether it is inside a string literal or right behind a backslash in one.
pub struct ScanState {
    pub depth: nat,
    pub in_string: bool,
    pub escaped: bool,
}

/// The state after reading one character.
pub open spec fn scan_step(st: ScanState, c: char) -> ScanState {
    if st.in_string {
        if st.escaped {
            ScanState { escaped: false, ..st }
        } else if c == '\\' {
            ScanState { escaped: true, ..st }
        } else if c == '"' {
            ScanState { in_string: false, ..st }
        } else {
            st
        }
    } else if c == '"' {
        ScanState { in_string: true, ..st }
    } else if c == '[' {
        ScanState { depth: st.depth + 1, ..st }
    } else if c == ']' {
        ScanState { depth: (st.depth - 1) as nat, ..st }
    } else {
        st
    }
}

/// Is the character at `i`, read in state `st`, the `]` that closes the
/// outermost array?
pub open spec fn closes_outermost(st: ScanState, c: char) -> bool {
    !st.in_string && c == ']' && st.depth == 1
}

/// The position of the `]` that closes the outermost array, scanning from
/// `i` in state `st`.
pub open spec fn closing_from(s: Seq<char>, i: int, st: ScanState) -> Option<int>
    decreases s.len() - i,
{
    if i < 0 || i >= s.len() {
        None
    } else if closes_outermost(st, s[i]) {
        Some(i)
    } else {
        closing_from(s, i + 1, scan_step(st, s[i]))
    }
}

/// The state right behind the `[` that opens the array.
pub open spec fn opened() -> ScanState {
    ScanState { depth: 1, in_string: false, escaped: false }
}

/// The position of the `]` that matches the `[` at `start`.
pub open spec fn matching_close(s: Seq<char>, start: int) -> Option<int> {
    closing_from(s, start + 1, opened())
}

/// The bounds of the payload: the first opening of an array of objects and
/// the bracket that closes it. `None` where no array of objects opens, or
/// where the first one is never closed.
pub open spec fn candidate_bounds(s: Seq<char>) -> Option<(int, int)> {
    match first_opening(s, 0) {
        None => None,
        Some(start) => match matching_close(s, start) {
            None => None,
            Some(end) => Some((start, end)),
        },
    }
}

/// The payload itself, both brackets included.
pub open spec fn candidate(s: Seq<char>) -> Option<Seq<char>> {
    match candidate_bounds(s) {
        None => None,
        Some((start, end)) => Some(s.subrange(start, end + 1)),
    }
}

/// `first_opening` finds an opening, and the least one.
pub proof fn lemma_first_opening_is_least(s: Seq<char>, i: int)
    requires
        0 <= i,
    ensures
        match first_opening(s, i) {
            Some(k) => i <= k < s.len() && opens_object_array(s, k) && forall|j: int|
                i <= j < k ==> !opens_object_array(s, j),
            None => forall|j: int| i <= j ==> !opens_object_array(s, j),
        },
    decreases s.len() - i,
{
    if i < s.len() && !opens_object_array(s, i) {
        lemma_first_opening_is_least(s, i + 1);
    }
}

/// The closing bracket lies behind the position the scan started from.
pub proof fn lemma_closing_in_range(s: Seq<char>, i: int, st: ScanState)
    requires
        0 <= i,
    ensures
        closing_from(s, i, st) matches Some(k) ==> i <= k < s.len() && s[k] == ']',
    decreases s.len() - i,
{
    if i < s.len() && !closes_outermost(st, s[i]) {
        lemma_closing_in_range(s, i + 1, scan_step(st, s[i]));
    }
}

/// Skipping whitespace never steps back nor past the end.
pub proof fn lemma_skip_spaces_bounds(s: Seq<char>, i: int)
    requires
        0 <= i <= s.len(),
    ensures
        i <= skip_spaces(s, i) <= s.len(),
    decreases s.len() - i,
{
    if i < s.len() && is_json_space(s[i]) {
        lemma_skip_spaces_bounds(s, i + 1);
    }
}

/// Where skipping whitespace stops inside `s`, it stops at the same place in
/// any text that `s` begins.
proof fn lemma_skip_spaces_in_prefix(s: Seq<char>, t: Seq<char>, i: int)
    requires
        s.is_prefix_of(t),
        0 <= i <= s.len(),
    ensures
        skip_spaces(s, i) < s.len() ==> skip_spaces(t, i) == skip_spaces(s, i),
        skip_spaces(s, i) >= s.len() ==> skip_spaces(t, i) == skip_spaces(t, s.len() as int),
    decreases s.len() - i,
{
    if i < s.len() {
        assert(s[i] == t[i]);
        if is_json_space(s[i]) {
            lemma_skip_spaces_in_prefix(s, t, i + 1);
        }
    }
}

/// A closing bracket found in `s` is found at the same place in any text that
/// `s` begins.
proof fn lemma_closing_in_prefix(s: Seq<char>, t: Seq<char>, i: int, st: ScanState)
    requires
        s.is_prefix_of(t),
        0 <= i,
        closing_from(s, i, st) is Some,
    ensures
        closing_from(t, i, st) == closing_from(s, i, st),
    decreases s.len() - i,
{
    if i < s.len() {
        assert(s[i] == t[i]);
        if !closes_outermost(st, s[i]) {
            lemma_closing_in_prefix(s, t, i + 1, scan_step(st, s[i]));
        }
    }
}

/// Text in front shifts where skipping whitespace stops, and nothing else.
proof fn lemma_skip_spaces_shifted(a: Seq<char>, b: Seq<char>, i: int)
    requires
        0 <= i,
    ensures
        skip_spaces(a + b, a.len() + i) == a.len() + skip_spaces(b, i),
    decreases b.len() - i,
{
    if i < b.len() {
        assert((a + b)[a.len() + i] == b[i]);
        if is_json_space(b[i]) {
            lemma_skip_spaces_shifted(a, b, i + 1);
        }
    }
}

/// Text in front shifts where the closing bracket is found, and nothing else.
proof fn lemma_closing_shifted(a: Seq<char>, b: Seq<char>, i: int, st: ScanState)
    requires
        0 <= i,
    ensures
        closing_from(a + b, a.len() + i, st) == match closing_from(b, i, st) {
            Some(k) => Some(a.len() + k),
            None => None,
        },
    decreases b.len() - i,
{
    if i < b.len() {
        assert((a + b)[a.len() + i] == b[i]);
        if !closes_outermost(st, b[i]) {
            lemma_closing_shifted(a, b, i + 1, scan_step(st, b[i]));
        }
    }
}

/// A payload is found wherever it stands: in front of it any text in which
/// no array of objects opens, behind it any text at all.
pub proof fn lemma_payload_found_in_prose(
    prefix: Seq<char>,
    payload: Seq<char>,
    suffix: Seq<char>,
)
    requires
        forall|j: int| !opens_object_array(prefix, j),
        opens_object_array(payload, 0),
        matching_close(payload, 0) == Some(payload.len() - 1),
    ensures
        candidate_bounds(prefix + payload + suffix) == Some(
            (prefix.len() as int, prefix.len() + payload.len() - 1),
        ),
        candidate(prefix + payload + suffix) == Some(payload),
{
    let tail = payload + suffix;
    let text = prefix + payload + suffix;
    let at = prefix.len() as int;
    assert(text =~= prefix + tail);
    assert(payload.is_prefix_of(tail));
    assert(prefix.is_prefix_of(text));
    // The payload opens an array of objects at its place in the text.
    lemma_skip_spaces_bounds(payload, 1);
    lemma_skip_spaces_in_prefix(payload, tail, 1);
    lemma_skip_spaces_shifted(prefix, tail, 1);
    assert(text[at] == payload[0]);
    assert(text[at + skip_spaces(payload, 1)] == payload[skip_spaces(payload, 1)]);
    assert(opens_object_array(text, at));
    // Nothing opens one before it.
    assert forall|j: int| 0 <= j < at implies !opens_object_array(text, j) by {
        assert(text[j] == prefix[j]);
        if prefix[j] == '[' {
            lemma_skip_spaces_bounds(prefix, j + 1);
            lemma_skip_spaces_in_prefix(prefix, text, j + 1);
            let stop = skip_spaces(prefix, j + 1);
            if stop < prefix.len() {
                assert(text[stop] == prefix[stop]);
                assert(!opens_object_array(prefix, j));
            } else {
                assert(!is_json_space(text[at]));
                assert(skip_spaces(text, at) == at);
            }
        }
    }
    lemma_first_opening_is_least(text, 0);
    assert(first_opening(text, 0) == Some(at));
    // Its closing bracket is found where it stands.
    lemma_closing_in_prefix(payload, tail, 1, opened());
    lemma_closing_shifted(prefix, tail, 1, opened());
    assert(matching_close(text, at) == Some(at + payload.len() - 1));
    assert(text.subrange(at, at + payload.len()) =~= payload);
}

/// A `[` that is followed, whitespace aside, by anything but `{` is never
/// where the payload starts.
pub proof fn lemma_other_arrays_are_skipped(s: Seq<char>, i: int)
    requires
        !opens_object_array(s, i),
    ensures
        candidate_bounds(s) matches Some((start, end)) ==> start != i,
{
    lemma_first_opening_is_least(s, 0);
}

/// Text without a `[` holds no payload.
pub proof fn lemma_no_bracket_no_payload(s: Seq<char>)
    requires
        !s.contains('['),
    ensures
        candidate(s) is None,
{
    lemma_first_opening_is_least(s, 0);
    if first_opening(s, 0) is Some {
        let k = first_opening(s, 0).unwrap();
        assert(s[k] == '[');
    }
}

fn is_space(c: char) -> (r: bool)
    ensures
        r == is_json_space(c),
{
    c == ' ' || c == '\t' || c == '\n' || c == '\r'
}

/// Tells whether an array of objects opens at `i`.
fn opens_at(s: &Vec<char>, i: usize) -> (r: bool)
    requires
        i < s.len(),
    ensures
        r == opens_object_array(s@, i as int),
{
    if s[i] != '[' {
        return false;
    }
    let mut j: usize = i + 1;
    while j < s.len() && is_space(s[j])
        invariant
            i < j <= s.len(),
            skip_spaces(s@, i + 1) == skip_spaces(s@, j as int),
        decreases s.len() - j,
    {
        j += 1;
    }
    j < s.len() && s[j] == '{'
}

/// The first position where an array of objects opens.
pub fn find_opening(s: &Vec<char>) -> (r: Option<usize>)
    ensures
        match r {
            Some(k) => first_opening(s@, 0) == Some(k as int),
            None => first_opening(s@, 0) is None,
        },
{
    let mut i: usize = 0;
    while i < s.len()
        invariant
            i <= s.len(),
            first_opening(s@, 0) == first_opening(s@, i as int),
        decreases s.len() - i,
    {
        if opens_at(s, i) {
            return Some(i);
        }
        i += 1;
    }
    None
}

/// The position of the `]` that matches the `[` at `start`.
pub fn find_matching_close(s: &Vec<char>, start: usize) -> (r: Option<usize>)
    ensures
        match r {
            Some(k) => matching_close(s@, start as int) == Some(k as int),
            None => matching_close(s@, start as int) is None,
        },
{
    if start >= s.len() {
        return None;
    }
    let mut depth: usize = 1;
    let mut in_string = false;
    let mut escaped = false;
    let mut i: usize = start + 1;
    while i < s.len()
        invariant
            start < i <= s.len(),
            1 <= depth <= i - start,
            matching_close(s@, start as int) == closing_from(
                s@,
                i as int,
                ScanState { depth: depth as nat, in_string, escaped },
            ),
        decreases s.len() - i,
    {
        let c = s[i];
        if in_string {
            if escaped {
                escaped = false;
            } else if c == '\\' {
                escaped = true;
            } else if c == '"' {
                in_string = false;
            }
        } else if c == '"' {
            in_string = true;
        } else if c == '[' {
            depth += 1;
        } else if c == ']' {
            if depth == 1 {
                return Some(i);
            }
            depth -= 1;
        }
        i += 1;
    }
    None
}

/// The first complete array of objects in `s`, both brackets included.
pub fn extract_first_json_array(s: &Vec<char>) -> (r: Option<Vec<char>>)
    ensures
        match r {
            Some(found) => candidate(s@) == Some(found@),
            None => candidate(s@) is None,
        },
{
    let start = match find_opening(s) {
        Some(start) => start,
        None => {
            return None;
        },
    };
    proof {
        lemma_first_opening_is_least(s@, 0);
    }
    let end = match find_matching_close(s, start) {
        Some(end) => end,
        None => {
            return None;
        },
    };
    proof {
        lemma_closing_in_range(s@, start + 1, opened());
    }
    let mut found: Vec<char> = Vec::new();
    let mut i: usize = start;
    while i <= end
        invariant
            start <= i <= end + 1,
            end < s.len(),
            found@ == s@.subrange(start as int, i as int),
        decreases end + 1 - i,
    {
        found.push(s[i]);
        i += 1;
    }
    Some(found)
}

} // verus!
