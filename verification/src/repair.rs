//! Repairing what models get wrong inside JSON string literals: backslashes
//! that start no JSON escape, and raw line breaks and tabs.

use vstd::prelude::*;

verus! {

/// The characters that may follow a backslash in a JSON string literal.
pub open spec fn is_legal_escape(c: char) -> bool {
    c == '"' || c == '\\' || c == '/' || c == 'b' || c == 'f' || c == 'n' || c == 'r' || c == 't'
        || c == 'u'
}

/// The letter that escapes a raw control character, for the three that are
/// repaired.
pub open spec fn control_escape(c: char) -> Option<char> {
    if c == '\n' {
        Some('n')
    } else if c == '\r' {
        Some('r')
    } else if c == '\t' {
        Some('t')
    } else {
        None
    }
}

/// The repaired text of `s`, read from its start either outside
/// (`in_string == false`) or inside a string literal.
///
/// Outside a string literal every character is kept. Inside one, a backslash
/// and a legal escape character behind it are kept as a pair; any other
/// backslash is doubled, and the character behind it is read on its own; a
/// raw line feed, carriage return or tab becomes its two-character escape; a
/// quote ends the literal; everything else is kept.
pub open spec fn sanitized(s: Seq<char>, in_string: bool) -> Seq<char>
    decreases s.len(),
{
    if s.len() == 0 {
        s
    } else if !in_string {
        seq![s[0]] + sanitized(s.skip(1), s[0] == '"')
    } else if s[0] == '\\' {
        if s.len() >= 2 && is_legal_escape(s[1]) {
            seq![s[0], s[1]] + sanitized(s.skip(2), true)
        } else {
            seq!['\\', '\\'] + sanitized(s.skip(1), true)
        }
    } else if s[0] == '"' {
        seq![s[0]] + sanitized(s.skip(1), false)
    } else {
        match control_escape(s[0]) {
            Some(letter) => seq!['\\', letter] + sanitized(s.skip(1), true),
            None => seq![s[0]] + sanitized(s.skip(1), true),
        }
    }
}

/// Is there nothing to repair in `s`, read from its start outside or inside
/// a string literal?
pub open spec fn needs_no_repair(s: Seq<char>, in_string: bool) -> bool
    decreases s.len(),
{
    if s.len() == 0 {
        true
    } else if !in_string {
        needs_no_repair(s.skip(1), s[0] == '"')
    } else if s[0] == '\\' {
        s.len() >= 2 && is_legal_escape(s[1]) && needs_no_repair(s.skip(2), true)
    } else if s[0] == '"' {
        needs_no_repair(s.skip(1), false)
    } else {
        control_escape(s[0]) is None && needs_no_repair(s.skip(1), true)
    }
}

/// Text with nothing to repair comes back unchanged.
pub proof fn lemma_clean_text_is_kept(s: Seq<char>, in_string: bool)
    requires
        needs_no_repair(s, in_string),
    ensures
        sanitized(s, in_string) == s,
    decreases s.len(),
{
    if s.len() == 0 {
    } else if !in_string {
        lemma_clean_text_is_kept(s.skip(1), s[0] == '"');
        assert(seq![s[0]] + s.skip(1) =~= s);
    } else if s[0] == '\\' {
        lemma_clean_text_is_kept(s.skip(2), true);
        assert(seq![s[0], s[1]] + s.skip(2) =~= s);
    } else if s[0] == '"' {
        lemma_clean_text_is_kept(s.skip(1), false);
        assert(seq![s[0]] + s.skip(1) =~= s);
    } else {
        lemma_clean_text_is_kept(s.skip(1), true);
        assert(seq![s[0]] + s.skip(1) =~= s);
    }
}

/// Repaired text has nothing left to repair.
pub proof fn lemma_repaired_text_is_clean(s: Seq<char>, in_string: bool)
    ensures
        needs_no_repair(sanitized(s, in_string), in_string),
    decreases s.len(),
{
    let out = sanitized(s, in_string);
    if s.len() == 0 {
    } else if !in_string {
        let rest = sanitized(s.skip(1), s[0] == '"');
        lemma_repaired_text_is_clean(s.skip(1), s[0] == '"');
        assert(out.skip(1) =~= rest);
    } else if s[0] == '\\' {
        if s.len() >= 2 && is_legal_escape(s[1]) {
            let rest = sanitized(s.skip(2), true);
            lemma_repaired_text_is_clean(s.skip(2), true);
            assert(out.skip(2) =~= rest);
        } else {
            let rest = sanitized(s.skip(1), true);
            lemma_repaired_text_is_clean(s.skip(1), true);
            assert(out.skip(2) =~= rest);
        }
    } else if s[0] == '"' {
        let rest = sanitized(s.skip(1), false);
        lemma_repaired_text_is_clean(s.skip(1), false);
        assert(out.skip(1) =~= rest);
    } else {
        let rest = sanitized(s.skip(1), true);
        lemma_repaired_text_is_clean(s.skip(1), true);
        match control_escape(s[0]) {
            Some(letter) => {
                assert(out.skip(2) =~= rest);
            },
            None => {
                assert(out.skip(1) =~= rest);
            },
        }
    }
}

/// Repairing twice gives what repairing once gives.
pub proof fn lemma_sanitize_idempotent(s: Seq<char>, in_string: bool)
    ensures
        sanitized(sanitized(s, in_string), in_string) == sanitized(s, in_string),
{
    lemma_repaired_text_is_clean(s, in_string);
    lemma_clean_text_is_kept(sanitized(s, in_string), in_string);
}

/// Text without a quote holds no string literal, and is kept as it is.
pub proof fn lemma_text_outside_strings_is_kept(s: Seq<char>)
    requires
        !s.contains('"'),
    ensures
        sanitized(s, false) == s,
    decreases s.len(),
{
    if s.len() > 0 {
        assert(s[0] != '"');
        assert forall|c: char| s.skip(1).contains(c) implies s.contains(c) by {
            let i = choose|i: int| 0 <= i < s.skip(1).len() && s.skip(1)[i] == c;
            assert(s[i + 1] == c);
        }
        lemma_text_outside_strings_is_kept(s.skip(1));
        assert(seq![s[0]] + s.skip(1) =~= s);
    }
}

fn legal_escape(c: char) -> (r: bool)
    ensures
        r == is_legal_escape(c),
{
    c == '"' || c == '\\' || c == '/' || c == 'b' || c == 'f' || c == 'n' || c == 'r' || c == 't'
        || c == 'u'
}

/// Repairs the string literals of `s`; what stands outside them is kept.
pub fn sanitize_json_escapes(s: &Vec<char>) -> (r: Vec<char>)
    ensures
        r@ == sanitized(s@, false),
{
    let mut out: Vec<char> = Vec::new();
    let mut in_string = false;
    let mut i: usize = 0;
    proof {
        assert(s@.skip(0) =~= s@);
        assert(out@ + sanitized(s@, false) =~= sanitized(s@, false));
    }
    while i < s.len()
        invariant
            i <= s.len(),
            out@ + sanitized(s@.skip(i as int), in_string) == sanitized(s@, false),
        decreases s.len() - i,
    {
        let c = s[i];
        let ghost rest = s@.skip(i as int);
        let ghost before = out@;
        proof {
            assert(rest.len() > 0 && rest[0] == c);
            assert(rest.skip(1) =~= s@.skip(i + 1));
        }
        if !in_string {
            out.push(c);
            in_string = c == '"';
            i += 1;
            assert(out@ + sanitized(s@.skip(i as int), in_string) =~= before + sanitized(
                rest,
                false,
            ));
        } else if c == '\\' {
            if i + 1 < s.len() && legal_escape(s[i + 1]) {
                proof {
                    assert(rest.len() >= 2 && rest[1] == s@[i + 1]);
                    assert(rest.skip(2) =~= s@.skip(i + 2));
                }
                out.push(c);
                out.push(s[i + 1]);
                i += 2;
                assert(out@ + sanitized(s@.skip(i as int), true) =~= before + sanitized(
                    rest,
                    true,
                ));
            } else {
                proof {
                    if i + 1 < s.len() {
                        assert(rest[1] == s@[i + 1]);
                    }
                }
                out.push('\\');
                out.push('\\');
                i += 1;
                assert(out@ + sanitized(s@.skip(i as int), true) =~= before + sanitized(
                    rest,
                    true,
                ));
            }
        } else if c == '"' {
            out.push(c);
            in_string = false;
            i += 1;
            assert(out@ + sanitized(s@.skip(i as int), false) =~= before + sanitized(rest, true));
        } else {
            if c == '\n' {
                out.push('\\');
                out.push('n');
            } else if c == '\r' {
                out.push('\\');
                out.push('r');
            } else if c == '\t' {
                out.push('\\');
                out.push('t');
            } else {
                out.push(c);
            }
            i += 1;
            assert(out@ + sanitized(s@.skip(i as int), true) =~= before + sanitized(rest, true));
        }
    }
    assert(s@.skip(i as int).len() == 0);
    assert(out@ + sanitized(s@.skip(i as int), in_string) =~= out@);
    out
}

} // verus!
