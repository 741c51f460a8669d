//! Text as sequences of characters: the helpers that the prompt builder, the
//! parser and the exporters share.

use vstd::prelude::*;

verus! {

/// The characters of `s`, in order.
pub fn chars_of(s: &str) -> (r: Vec<char>)
    ensures
        r@ == s@,
{
    let mut out: Vec<char> = Vec::new();
    for c in it: s.chars()
        invariant
            out@ == it.seq().take(it.index() as int),
    {
        out.push(c);
    }
    out
}

/// Appends one character to a string. This is `String::push` of the standard
/// library, which the contract takes at its documented word.
#[verifier::external_body]
pub(crate) fn push_char(s: &mut String, c: char)
    ensures
        final(s)@ == old(s)@.push(c),
{
    s.push(c)
}

/// Appends the characters `v[from..to]` to a string.
pub(crate) fn push_range(out: &mut String, v: &Vec<char>, from: usize, to: usize)
    requires
        from <= to <= v.len(),
    ensures
        final(out)@ == old(out)@ + v@.subrange(from as int, to as int),
{
    let mut i: usize = from;
    while i < to
        invariant
            from <= i <= to <= v.len(),
            out@ == old(out)@ + v@.subrange(from as int, i as int),
        decreases to - i,
    {
        push_char(out, v[i]);
        i += 1;
    }
}

/// The string made of the characters of `v`.
pub fn string_of(v: &Vec<char>) -> (r: String)
    ensures
        r@ == v@,
{
    let mut out = String::new();
    push_range(&mut out, v, 0, v.len());
    assert(v@.subrange(0, v.len() as int) =~= v@);
    out
}

/// Tells whether two texts hold the same characters.
pub fn same_text(a: &str, b: &str) -> (r: bool)
    ensures
        r == (a@ == b@),
{
    let x = a.to_owned();
    let y = b.to_owned();
    x == y
}

/// The character of a decimal digit.
pub open spec fn digit_char(d: nat) -> char {
    ('0' as u8 + d) as char
}

/// A natural number written in decimal, without leading zeros.
pub open spec fn decimal(n: nat) -> Seq<char>
    decreases n,
{
    if n < 10 {
        seq![digit_char(n)]
    } else {
        decimal(n / 10).push(digit_char(n % 10))
    }
}

/// Writes `n` in decimal.
pub fn decimal_string(n: u128) -> (r: String)
    ensures
        r@ == decimal(n as nat),
{
    let mut digits: Vec<char> = Vec::new();
    let mut rest: u128 = n;
    // `digits` holds the low digits of `n`, lowest first.
    while rest >= 10
        invariant
            decimal(n as nat) == decimal(rest as nat) + digits@.reverse(),
        decreases rest,
    {
        let d: u8 = (rest % 10) as u8;
        let ghost before = digits@;
        digits.push((48u8 + d) as char);
        proof {
            assert(digits@.reverse() =~= seq![digit_char((rest % 10) as nat)] + before.reverse());
            assert(decimal(rest as nat) == decimal((rest / 10) as nat).push(
                digit_char((rest % 10) as nat),
            ));
            assert(decimal((rest / 10) as nat).push(digit_char((rest % 10) as nat))
                + before.reverse() =~= decimal((rest / 10) as nat) + digits@.reverse());
        }
        rest = rest / 10;
    }
    let mut out = String::new();
    push_char(&mut out, (48u8 + (rest as u8)) as char);
    let mut k: usize = digits.len();
    while k > 0
        invariant
            k <= digits.len(),
            out@ == decimal(rest as nat) + digits@.reverse().subrange(
                0,
                digits.len() - k,
            ),
        decreases k,
    {
        k -= 1;
        let ghost before = out@;
        push_char(&mut out, digits[k]);
        proof {
            let rev = digits@.reverse();
            assert(rev[digits.len() - 1 - k] == digits@[k as int]);
            assert(rev.subrange(0, digits.len() - k) =~= rev.subrange(0, digits.len() - 1 - k).push(
                digits@[k as int],
            ));
        }
    }
    assert(digits@.reverse().subrange(0, digits.len() as int) =~= digits@.reverse());
    out
}

/// The parts of a list, with a separator between each two neighbours.
pub open spec fn joined(parts: Seq<Seq<char>>, sep: Seq<char>) -> Seq<char>
    decreases parts.len(),
{
    if parts.len() == 0 {
        Seq::empty()
    } else if parts.len() == 1 {
        parts[0]
    } else {
        joined(parts.drop_last(), sep) + sep + parts.last()
    }
}

/// Joins the strings of a list, with `sep` between each two neighbours.
pub fn join(parts: &Vec<String>, sep: &str) -> (r: String)
    ensures
        r@ == joined(parts.deep_view(), sep@),
{
    let mut out = String::new();
    let mut i: usize = 0;
    while i < parts.len()
        invariant
            i <= parts.len(),
            out@ == joined(parts.deep_view().take(i as int), sep@),
        decreases parts.len() - i,
    {
        let ghost before = parts.deep_view().take(i as int);
        let ghost now = parts.deep_view().take(i + 1);
        proof {
            assert(now.drop_last() =~= before);
            assert(now.last() == parts[i as int]@);
        }
        if i > 0 {
            out.append(sep);
        }
        out.append(parts[i].as_str());
        proof {
            if i == 0 {
                assert(out@ =~= now[0]);
            }
        }
        i += 1;
    }
    assert(parts.deep_view().take(parts.len() as int) =~= parts.deep_view());
    out
}

/// `s` with every occurrence of `from` replaced by `to`, reading from the
/// left and never looking into what was put in. An empty `from` occurs
/// nowhere.
pub open spec fn replaced(s: Seq<char>, from: Seq<char>, to: Seq<char>) -> Seq<char>
    decreases s.len(),
{
    if from.len() == 0 || s.len() == 0 {
        s
    } else if from.is_prefix_of(s) {
        to + replaced(s.skip(from.len() as int), from, to)
    } else {
        seq![s[0]] + replaced(s.skip(1), from, to)
    }
}

/// Tells whether `pat` stands in `text` at position `at`.
fn occurs_at(text: &Vec<char>, at: usize, pat: &Vec<char>) -> (r: bool)
    requires
        at <= text.len(),
    ensures
        r == pat@.is_prefix_of(text@.skip(at as int)),
{
    if pat.len() > text.len() - at {
        return false;
    }
    let mut k: usize = 0;
    while k < pat.len()
        invariant
            k <= pat.len() <= text.len() - at,
            forall|j: int| 0 <= j < k ==> pat@[j] == text@[at + j],
        decreases pat.len() - k,
    {
        if pat[k] != text[at + k] {
            assert(text@.skip(at as int)[k as int] == text@[at + k]);
            return false;
        }
        k += 1;
    }
    assert(pat@ =~= text@.skip(at as int).subrange(0, pat.len() as int));
    true
}

/// Replaces every occurrence of `from` in `s` by `to`.
pub fn replace(s: &str, from: &str, to: &str) -> (r: String)
    ensures
        r@ == replaced(s@, from@, to@),
{
    let text = chars_of(s);
    let pat = chars_of(from);
    if pat.len() == 0 {
        return s.to_owned();
    }
    let mut out = String::new();
    let mut i: usize = 0;
    proof {
        assert(text@.skip(0) =~= text@);
        assert(out@ + replaced(text@, pat@, to@) =~= replaced(text@, pat@, to@));
    }
    while i < text.len()
        invariant
            i <= text.len(),
            pat.len() > 0,
            out@ + replaced(text@.skip(i as int), pat@, to@) == replaced(text@, pat@, to@),
        decreases text.len() - i,
    {
        let ghost rest = text@.skip(i as int);
        let ghost before = out@;
        if occurs_at(&text, i, &pat) {
            out.append(to);
            i += pat.len();
            proof {
                assert(rest.skip(pat.len() as int) =~= text@.skip(i as int));
                assert(out@ + replaced(text@.skip(i as int), pat@, to@) =~= before + replaced(
                    rest,
                    pat@,
                    to@,
                ));
            }
        } else {
            push_char(&mut out, text[i]);
            i += 1;
            proof {
                assert(rest.skip(1) =~= text@.skip(i as int));
                assert(out@ + replaced(text@.skip(i as int), pat@, to@) =~= before + replaced(
                    rest,
                    pat@,
                    to@,
                ));
            }
        }
    }
    assert(out@ + replaced(text@.skip(i as int), pat@, to@) =~= out@);
    out
}

/// The characters with the Unicode property `White_Space`.
pub open spec fn is_whitespace(c: char) -> bool {
    let u = c as u32;
    ||| 0x09 <= u <= 0x0D
    ||| u == 0x20
    ||| u == 0x85
    ||| u == 0xA0
    ||| u == 0x1680
    ||| 0x2000 <= u <= 0x200A
    ||| u == 0x2028
    ||| u == 0x2029
    ||| u == 0x202F
    ||| u == 0x205F
    ||| u == 0x3000
}

/// Is every character of `s` whitespace? True of the empty text.
pub open spec fn is_blank(s: Seq<char>) -> bool {
    forall|i: int| 0 <= i < s.len() ==> is_whitespace(#[trigger] s[i])
}

/// Tells whether `c` is whitespace.
pub fn whitespace(c: char) -> (r: bool)
    ensures
        r == is_whitespace(c),
{
    let u: u32 = c as u32;
    (0x09 <= u && u <= 0x0D) || u == 0x20 || u == 0x85 || u == 0xA0 || u == 0x1680 || (0x2000 <= u
        && u <= 0x200A) || u == 0x2028 || u == 0x2029 || u == 0x202F || u == 0x205F || u == 0x3000
}

/// Tells whether `s` holds nothing but whitespace.
pub fn blank(s: &str) -> (r: bool)
    ensures
        r == is_blank(s@),
{
    let text = chars_of(s);
    let mut i: usize = 0;
    while i < text.len()
        invariant
            i <= text.len(),
            text@ == s@,
            forall|j: int| 0 <= j < i ==> is_whitespace(#[trigger] s@[j]),
        decreases text.len() - i,
    {
        if !whitespace(text[i]) {
            return false;
        }
        i += 1;
    }
    true
}

/// Where the text behind leading whitespace starts.
pub open spec fn trim_start_at(s: Seq<char>) -> int
    decreases s.len(),
{
    if s.len() > 0 && is_whitespace(s[0]) {
        1 + trim_start_at(s.skip(1))
    } else {
        0
    }
}

/// Where the text in front of trailing whitespace ends.
pub open spec fn trim_end_at(s: Seq<char>) -> int
    decreases s.len(),
{
    if s.len() > 0 && is_whitespace(s.last()) {
        trim_end_at(s.drop_last())
    } else {
        s.len() as int
    }
}

/// A text without the whitespace at its start and at its end.
pub open spec fn trimmed(s: Seq<char>) -> Seq<char> {
    let rest = s.skip(trim_start_at(s));
    rest.take(trim_end_at(rest))
}

/// The bounds of `text[from..to]` without the whitespace at its start and at
/// its end.
pub(crate) fn trim_range(text: &Vec<char>, from: usize, to: usize) -> (r: (usize, usize))
    requires
        from <= to <= text.len(),
    ensures
        from <= r.0 <= r.1 <= to,
        text@.subrange(r.0 as int, r.1 as int) == trimmed(text@.subrange(from as int, to as int)),
{
    let ghost part = text@.subrange(from as int, to as int);
    let mut a: usize = from;
    proof {
        assert(part.skip(0) =~= part);
    }
    while a < to && whitespace(text[a])
        invariant
            from <= a <= to <= text.len(),
            part == text@.subrange(from as int, to as int),
            trim_start_at(part) == (a - from) + trim_start_at(part.skip(a - from)),
        decreases to - a,
    {
        proof {
            assert(part.skip(a - from)[0] == text@[a as int]);
            assert(part.skip(a - from).skip(1) =~= part.skip(a - from + 1));
        }
        a += 1;
    }
    proof {
        if a < to {
            assert(part.skip(a - from)[0] == text@[a as int]);
        }
        assert(trim_start_at(part) == a - from);
    }
    let ghost rest = part.skip(a - from);
    let mut b: usize = to;
    proof {
        assert(rest.take(rest.len() as int) =~= rest);
    }
    while b > a && whitespace(text[b - 1])
        invariant
            from <= a <= b <= to <= text.len(),
            part == text@.subrange(from as int, to as int),
            rest == part.skip(a - from),
            trim_end_at(rest) == trim_end_at(rest.take(b - a)),
        decreases b - a,
    {
        proof {
            assert(rest.take(b - a).last() == text@[b - 1]);
            assert(rest.take(b - a).drop_last() =~= rest.take(b - a - 1));
        }
        b -= 1;
    }
    proof {
        if b > a {
            assert(rest.take(b - a).last() == text@[b - 1]);
        }
        assert(trim_end_at(rest) == b - a);
        assert(text@.subrange(a as int, b as int) =~= rest.take(b - a));
    }
    (a, b)
}

/// A text without the whitespace at its start and at its end.
pub fn trim(s: &str) -> (r: String)
    ensures
        r@ == trimmed(s@),
{
    let text = chars_of(s);
    let (a, b) = trim_range(&text, 0, text.len());
    let mut out = String::new();
    push_range(&mut out, &text, a, b);
    proof {
        assert(text@.subrange(0, text.len() as int) =~= text@);
    }
    out
}

/// Where the first `c` stands in a text; its length where there is none.
pub open spec fn position_of(s: Seq<char>, c: char) -> int
    decreases s.len(),
{
    if s.len() == 0 || s[0] == c {
        0
    } else {
        1 + position_of(s.skip(1), c)
    }
}

/// The first `c` of a text stands inside it, or there is none.
pub proof fn lemma_position_of(s: Seq<char>, c: char)
    ensures
        0 <= position_of(s, c) <= s.len(),
        position_of(s, c) < s.len() ==> s[position_of(s, c)] == c,
        forall|j: int| 0 <= j < position_of(s, c) ==> #[trigger] s[j] != c,
    decreases s.len(),
{
    if s.len() > 0 && s[0] != c {
        lemma_position_of(s.skip(1), c);
        if position_of(s, c) < s.len() {
            assert(s[position_of(s, c)] == s.skip(1)[position_of(s.skip(1), c)]);
        }
        assert forall|j: int| 0 <= j < position_of(s, c) implies #[trigger] s[j] != c by {
            if j > 0 {
                assert(s[j] == s.skip(1)[j - 1]);
            }
        }
    }
}

/// The pieces of a text between the occurrences of a separator: one more
/// than there are separators.
pub open spec fn split_on(s: Seq<char>, sep: char) -> Seq<Seq<char>>
    decreases s.len(),
{
    let at = position_of(s, sep);
    if at >= s.len() {
        seq![s]
    } else {
        proof {
            lemma_position_of(s, sep);
        }
        seq![s.take(at)] + split_on(s.skip(at + 1), sep)
    }
}

/// A line without the carriage return at its end, if it has one.
pub open spec fn without_carriage_return(line: Seq<char>) -> Seq<char> {
    if line.len() > 0 && line.last() == '\r' {
        line.drop_last()
    } else {
        line
    }
}

/// The lines of a text. A line ends with a line feed, or with a carriage
/// return and a line feed, which are not part of it; the last line may end
/// with the text.
pub open spec fn lines_of(s: Seq<char>) -> Seq<Seq<char>>
    decreases s.len(),
{
    let at = position_of(s, '\n');
    if s.len() == 0 {
        Seq::empty()
    } else if at >= s.len() {
        seq![s]
    } else {
        proof {
            lemma_position_of(s, '\n');
        }
        seq![without_carriage_return(s.take(at))] + lines_of(s.skip(at + 1))
    }
}

/// Where the first `c` stands in `text[from..to]`, or `to`.
fn find_char(text: &Vec<char>, from: usize, to: usize, c: char) -> (r: usize)
    requires
        from <= to <= text.len(),
    ensures
        from <= r <= to,
        r - from == position_of(text@.subrange(from as int, to as int), c),
{
    let ghost part = text@.subrange(from as int, to as int);
    let mut i: usize = from;
    proof {
        assert(part.skip(0) =~= part);
    }
    while i < to && text[i] != c
        invariant
            from <= i <= to <= text.len(),
            part == text@.subrange(from as int, to as int),
            position_of(part, c) == (i - from) + position_of(part.skip(i - from), c),
        decreases to - i,
    {
        proof {
            assert(part.skip(i - from)[0] == text@[i as int]);
            assert(part.skip(i - from).skip(1) =~= part.skip(i - from + 1));
        }
        i += 1;
    }
    proof {
        if i < to {
            assert(part.skip(i - from)[0] == text@[i as int]);
        }
    }
    i
}

/// Splits a text at each occurrence of a separator.
pub fn split(text: &Vec<char>, sep: char) -> (r: Vec<String>)
    ensures
        r.deep_view() == split_on(text@, sep),
{
    let mut out: Vec<String> = Vec::new();
    let mut from: usize = 0;
    proof {
        assert(text@.subrange(0, text.len() as int) =~= text@);
        assert(out.deep_view() + split_on(text@, sep) =~= split_on(text@, sep));
    }
    loop
        invariant
            from <= text.len(),
            out.deep_view() + split_on(text@.subrange(from as int, text.len() as int), sep)
                == split_on(text@, sep),
        decreases text.len() - from,
    {
        let ghost rest = text@.subrange(from as int, text.len() as int);
        let ghost done = out.deep_view();
        let at = find_char(text, from, text.len(), sep);
        let mut piece = String::new();
        push_range(&mut piece, text, from, at);
        let ghost piece_text = piece@;
        proof {
            assert(piece_text =~= rest.take(at - from));
        }
        out.push(piece);
        proof {
            assert(out.deep_view() =~= done.push(piece_text));
        }
        if at >= text.len() {
            proof {
                assert(rest.take(rest.len() as int) =~= rest);
                assert(out.deep_view() =~= done + seq![rest]);
            }
            return out;
        }
        proof {
            assert(rest.skip(at - from + 1) =~= text@.subrange(at + 1, text.len() as int));
            assert(out.deep_view() + split_on(
                text@.subrange(at + 1, text.len() as int),
                sep,
            ) =~= done + (seq![rest.take(at - from)] + split_on(rest.skip(at - from + 1), sep)));
        }
        from = at + 1;
    }
}

/// Splits a text into its lines.
pub fn lines(text: &Vec<char>) -> (r: Vec<String>)
    ensures
        r.deep_view() == lines_of(text@),
{
    let mut out: Vec<String> = Vec::new();
    let mut from: usize = 0;
    proof {
        assert(text@.subrange(0, text.len() as int) =~= text@);
        assert(out.deep_view() + lines_of(text@) =~= lines_of(text@));
    }
    while from < text.len()
        invariant
            from <= text.len(),
            out.deep_view() + lines_of(text@.subrange(from as int, text.len() as int))
                == lines_of(text@),
        decreases text.len() - from,
    {
        let ghost rest = text@.subrange(from as int, text.len() as int);
        let ghost done = out.deep_view();
        let at = find_char(text, from, text.len(), '\n');
        let end: usize = if at < text.len() && at > from && text[at - 1] == '\r' {
            at - 1
        } else {
            at
        };
        let mut piece = String::new();
        push_range(&mut piece, text, from, end);
        let ghost piece_text = piece@;
        out.push(piece);
        proof {
            assert(out.deep_view() =~= done.push(piece_text));
        }
        if at >= text.len() {
            proof {
                assert(rest.take(rest.len() as int) =~= rest);
                assert(piece_text =~= rest);
                assert(out.deep_view() =~= done + seq![rest]);
                assert(text@.subrange(text.len() as int, text.len() as int) =~= Seq::empty());
                assert(done + seq![rest] =~= done + seq![rest] + lines_of(
                    text@.subrange(text.len() as int, text.len() as int),
                ));
            }
            from = text.len();
        } else {
            proof {
                let line = rest.take(at - from);
                if line.len() > 0 {
                    assert(line.last() == text@[at - 1]);
                }
                assert(piece_text =~= without_carriage_return(line));
                assert(rest.skip(at - from + 1) =~= text@.subrange(at + 1, text.len() as int));
                assert(out.deep_view() + lines_of(
                    text@.subrange(at + 1, text.len() as int),
                ) =~= done + (seq![without_carriage_return(line)] + lines_of(
                    rest.skip(at - from + 1),
                )));
            }
            from = at + 1;
        }
    }
    proof {
        assert(text@.subrange(from as int, text.len() as int) =~= Seq::empty());
        assert(out.deep_view() + Seq::<Seq<char>>::empty() =~= out.deep_view());
    }
    out
}

/// Does `pat` stand somewhere in `s`?
pub open spec fn contains_text(s: Seq<char>, pat: Seq<char>) -> bool {
    exists|i: int| 0 <= i <= s.len() && pat.is_prefix_of(#[trigger] s.skip(i))
}

/// Where a pattern does not occur, nothing is replaced.
pub proof fn lemma_replaced_without_occurrence(s: Seq<char>, from: Seq<char>, to: Seq<char>)
    requires
        !contains_text(s, from),
    ensures
        replaced(s, from, to) == s,
    decreases s.len(),
{
    if from.len() > 0 && s.len() > 0 {
        assert(s.skip(0) =~= s);
        assert forall|i: int| 0 <= i <= s.skip(1).len() implies !from.is_prefix_of(
            #[trigger] s.skip(1).skip(i),
        ) by {
            assert(s.skip(1).skip(i) =~= s.skip(i + 1));
        }
        lemma_replaced_without_occurrence(s.skip(1), from, to);
        assert(seq![s[0]] + s.skip(1) =~= s);
    }
}

/// Tells whether `pat` stands somewhere in `s`.
pub fn contains(s: &str, pat: &str) -> (r: bool)
    ensures
        r == contains_text(s@, pat@),
{
    let text = chars_of(s);
    let wanted = chars_of(pat);
    let mut i: usize = 0;
    while i < text.len()
        invariant
            i <= text.len(),
            text@ == s@,
            wanted@ == pat@,
            forall|j: int| 0 <= j < i ==> !pat@.is_prefix_of(#[trigger] s@.skip(j)),
        decreases text.len() - i,
    {
        if occurs_at(&text, i, &wanted) {
            return true;
        }
        i += 1;
    }
    if occurs_at(&text, i, &wanted) {
        return true;
    }
    false
}

} // verus!
