//! Conversions between strings and character sequences, and the search that
//! the scanner and the parser share.
//!
//! The scanner and the parser work on `Vec<char>`, whose view is the same
//! `Seq<char>` as the view of the string it was read from.

use vstd::prelude::*;

verus! {

/// Trusted: `String::push` of the standard library. The contract claims what
/// its documentation says: the character is appended to the end of the string
/// and nothing else changes.
#[verifier::external_body]
pub(crate) fn push_char(s: &mut String, c: char)
    ensures
        final(s)@ == old(s)@.push(c),
{
    s.push(c)
}

/// The characters of `s`, in order.
pub(crate) fn chars_of(s: &str) -> (chars: Vec<char>)
    ensures
        chars@ == s@,
{
    let mut chars: Vec<char> = Vec::new();
    let it = s.chars();
    for c in iter: it
        invariant
            chars@ == iter.seq().take(iter.index() as int),
    {
        chars.push(c);
    }
    chars
}

/// Appends the characters `chars[from..to]` to `s`.
pub(crate) fn append_chars(s: &mut String, chars: &Vec<char>, from: usize, to: usize)
    requires
        from <= to <= chars.len(),
    ensures
        final(s)@ == old(s)@ + chars@.subrange(from as int, to as int),
{
    let mut i: usize = from;
    while i < to
        invariant
            from <= i <= to <= chars.len(),
            s@ == old(s)@ + chars@.subrange(from as int, i as int),
        decreases to - i,
    {
        push_char(s, chars[i]);
        i = i + 1;
    }
}

/// The string made of the characters `chars[from..to]`.
pub(crate) fn string_of(chars: &Vec<char>, from: usize, to: usize) -> (s: String)
    requires
        from <= to <= chars.len(),
    ensures
        s@ == chars@.subrange(from as int, to as int),
{
    let mut s = String::new();
    append_chars(&mut s, chars, from, to);
    s
}

/// The first index at or after `from` whose character does not satisfy `keep`,
/// or the length of `s` where every character from `from` on satisfies it.
pub open spec fn scan_while(s: Seq<char>, from: int, keep: spec_fn(char) -> bool) -> int
    decreases s.len() - from,
{
    if 0 <= from < s.len() && keep(s[from]) {
        scan_while(s, from + 1, keep)
    } else {
        from
    }
}

/// `scan_while` stops within the text, passes only characters that satisfy
/// `keep`, and stops on one that does not, if it stops before the end.
pub proof fn lemma_scan_while(s: Seq<char>, from: int, keep: spec_fn(char) -> bool)
    requires
        0 <= from <= s.len(),
    ensures
        from <= scan_while(s, from, keep) <= s.len(),
        forall|i: int| from <= i < scan_while(s, from, keep) ==> keep(#[trigger] s[i]),
        scan_while(s, from, keep) < s.len() ==> !keep(s[scan_while(s, from, keep)]),
    decreases s.len() - from,
{
    if from < s.len() && keep(s[from]) {
        lemma_scan_while(s, from + 1, keep);
    }
}

/// `scan_while` stops at `end` where every character from `from` up to `end`
/// satisfies `keep` and the one at `end`, if there is one, does not.
pub proof fn lemma_scan_while_stops_at(
    s: Seq<char>,
    from: int,
    keep: spec_fn(char) -> bool,
    end: int,
)
    requires
        0 <= from <= end <= s.len(),
        forall|i: int| from <= i < end ==> keep(#[trigger] s[i]),
        end < s.len() ==> !keep(s[end]),
    ensures
        scan_while(s, from, keep) == end,
    decreases end - from,
{
    if from < end {
        assert(keep(s[from]));
        lemma_scan_while_stops_at(s, from + 1, keep, end);
    }
}

} // verus!
