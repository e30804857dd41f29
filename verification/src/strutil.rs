//! Small verified building blocks for text handling: conversion between
//! `String` and `Vec<char>`, substring search, and decimal formatting.

use vstd::prelude::*;

verus! {

/// Relies on `String::push`: appends one character.
#[verifier::external_body]
pub(crate) fn push_char(s: &mut String, c: char)
    ensures
        final(s)@ == old(s)@.push(c),
{
    s.push(c);
}

/// Relies on `String::push_str`: appends every character of `t`.
#[verifier::external_body]
pub(crate) fn push_str(s: &mut String, t: &str)
    ensures
        final(s)@ == old(s)@ + t@,
{
    s.push_str(t);
}

/// Relies on `str::chars`: yields the characters of the string in order.
#[verifier::external_body]
pub(crate) fn chars_of(s: &str) -> (r: Vec<char>)
    ensures
        r@ == s@,
{
    s.chars().collect()
}

/// Builds a `String` out of a character sequence.
pub fn string_from_chars(chars: &Vec<char>) -> (r: String)
    ensures
        r@ == chars@,
{
    let mut out = String::new();
    let mut i: usize = 0;
    while i < chars.len()
        invariant
            i <= chars@.len(),
            out@ == chars@.take(i as int),
        decreases chars@.len() - i,
    {
        push_char(&mut out, chars[i]);
        proof {
            assert(out@ =~= chars@.take(i + 1));
        }
        i = i + 1;
    }
    proof {
        assert(chars@.take(chars@.len() as int) =~= chars@);
    }
    out
}

/// Appends every character of `src` to `dst`.
pub fn extend_chars(dst: &mut Vec<char>, src: &Vec<char>)
    ensures
        final(dst)@ == old(dst)@ + src@,
{
    let mut i: usize = 0;
    while i < src.len()
        invariant
            i <= src@.len(),
            dst@ == old(dst)@ + src@.take(i as int),
        decreases src@.len() - i,
    {
        dst.push(src[i]);
        proof {
            assert(old(dst)@ + src@.take(i as int) + seq![src@[i as int]] =~= old(dst)@
                + src@.take(i + 1));
        }
        i = i + 1;
    }
    proof {
        assert(old(dst)@ + src@.take(src@.len() as int) =~= old(dst)@ + src@);
    }
}

/// Appends every character of the literal `src` to `dst`.
pub fn extend_str(dst: &mut Vec<char>, src: &str)
    ensures
        final(dst)@ == old(dst)@ + src@,
{
    let cs = chars_of(src);
    extend_chars(dst, &cs);
}

/// The pattern `pat` occurs in `s` at position `i`.
pub open spec fn match_at(s: Seq<char>, pat: Seq<char>, i: int) -> bool {
    0 <= i && i + pat.len() <= s.len() && s.subrange(i, i + pat.len()) == pat
}

/// The least position at or after `from` where `pat` occurs in `s`, if any.
pub open spec fn spec_find_from(s: Seq<char>, pat: Seq<char>, from: int) -> Option<int>
    decreases s.len() + 1 - from,
{
    if from + pat.len() > s.len() || from < 0 {
        None
    } else if match_at(s, pat, from) {
        Some(from)
    } else {
        spec_find_from(s, pat, from + 1)
    }
}

/// The least position where `pat` occurs in `s`, if any.
pub open spec fn spec_find(s: Seq<char>, pat: Seq<char>) -> Option<int> {
    spec_find_from(s, pat, 0)
}

/// A successful search result is a real match position, and no earlier
/// position at or after `from` matches.
pub proof fn lemma_find_from_props(s: Seq<char>, pat: Seq<char>, from: int)
    requires
        0 <= from,
    ensures
        match spec_find_from(s, pat, from) {
            Some(i) => from <= i && match_at(s, pat, i) && forall|j: int|
                from <= j < i ==> !match_at(s, pat, j),
            None => forall|j: int| from <= j ==> !match_at(s, pat, j),
        },
    decreases s.len() + 1 - from,
{
    if from + pat.len() > s.len() {
        assert forall|j: int| from <= j implies !match_at(s, pat, j) by {}
    } else if match_at(s, pat, from) {
    } else {
        lemma_find_from_props(s, pat, from + 1);
    }
}

/// Compares two character windows for equality.
pub fn chars_eq_at(s: &Vec<char>, pat: &Vec<char>, i: usize) -> (r: bool)
    requires
        i + pat@.len() <= s@.len(),
    ensures
        r == match_at(s@, pat@, i as int),
{
    let mut k: usize = 0;
    while k < pat.len()
        invariant
            k <= pat.len(),
            i + pat.len() <= s.len(),
            forall|m: int| 0 <= m < k ==> s@[i + m] == pat@[m],
        decreases pat@.len() - k,
    {
        if s[i + k] != pat[k] {
            proof {
                assert(s@.subrange(i as int, i + pat@.len())[k as int] == s@[i + k]);
            }
            return false;
        }
        k = k + 1;
    }
    proof {
        assert(s@.subrange(i as int, i + pat@.len()) =~= pat@);
    }
    true
}

/// Finds the first occurrence of `pat` in `s` at or after position `from`.
pub fn find_chars_from(s: &Vec<char>, pat: &Vec<char>, from: usize) -> (r: Option<usize>)
    ensures
        match r {
            Some(i) => from <= i && spec_find_from(s@, pat@, from as int) == Some(i as int),
            None => spec_find_from(s@, pat@, from as int) is None,
        },
{
    if pat.len() > s.len() {
        proof {
            lemma_find_none_when_long(s@, pat@, from as int);
        }
        return None;
    }
    if pat.len() == 0 {
        if from <= s.len() {
            proof {
                assert(s@.subrange(from as int, from as int) =~= pat@);
            }
            return Some(from);
        } else {
            proof {
                lemma_find_none_when_long(s@, pat@, from as int);
            }
            return None;
        }
    }
    let last = s.len() - pat.len();
    if from > last {
        proof {
            lemma_find_none_when_long(s@, pat@, from as int);
        }
        return None;
    }
    let mut i: usize = from;
    while i <= last
        invariant
            from <= i,
            1 <= pat.len() <= s.len(),
            last == s.len() - pat.len(),
            i <= last + 1,
            spec_find_from(s@, pat@, from as int) == spec_find_from(s@, pat@, i as int),
        decreases last + 1 - i,
    {
        if chars_eq_at(s, pat, i) {
            return Some(i);
        }
        i = i + 1;
    }
    proof {
        lemma_find_none_when_long(s@, pat@, i as int);
    }
    None
}

/// Finds the first occurrence of `pat` in `s`.
pub fn find_chars(s: &Vec<char>, pat: &Vec<char>) -> (r: Option<usize>)
    ensures
        match r {
            Some(i) => spec_find(s@, pat@) == Some(i as int),
            None => spec_find(s@, pat@) is None,
        },
{
    find_chars_from(s, pat, 0)
}

proof fn lemma_find_none_when_long(s: Seq<char>, pat: Seq<char>, from: int)
    requires
        from + pat.len() > s.len() || from < 0,
    ensures
        spec_find_from(s, pat, from) is None,
{
}

/// The decimal digit character for `d`.
pub open spec fn spec_digit(d: int) -> char {
    if d == 0 {
        '0'
    } else if d == 1 {
        '1'
    } else if d == 2 {
        '2'
    } else if d == 3 {
        '3'
    } else if d == 4 {
        '4'
    } else if d == 5 {
        '5'
    } else if d == 6 {
        '6'
    } else if d == 7 {
        '7'
    } else if d == 8 {
        '8'
    } else {
        '9'
    }
}

/// The decimal rendering of `n`, most significant digit first.
pub open spec fn spec_decimal(n: int) -> Seq<char>
    decreases n,
{
    if n < 10 {
        seq![spec_digit(n)]
    } else {
        spec_decimal(n / 10).push(spec_digit(n % 10))
    }
}

pub fn digit_char(d: u64) -> (r: char)
    requires
        d < 10,
    ensures
        r == spec_digit(d as int),
{
    if d == 0 {
        '0'
    } else if d == 1 {
        '1'
    } else if d == 2 {
        '2'
    } else if d == 3 {
        '3'
    } else if d == 4 {
        '4'
    } else if d == 5 {
        '5'
    } else if d == 6 {
        '6'
    } else if d == 7 {
        '7'
    } else if d == 8 {
        '8'
    } else {
        '9'
    }
}

/// Appends the decimal rendering of `n` to `out`.
pub fn push_decimal(out: &mut Vec<char>, n: u64)
    ensures
        final(out)@ == old(out)@ + spec_decimal(n as int),
    decreases n,
{
    if n < 10 {
        out.push(digit_char(n));
        proof {
            assert(old(out)@.push(spec_digit(n as int)) =~= old(out)@ + spec_decimal(n as int));
        }
    } else {
        push_decimal(out, n / 10);
        out.push(digit_char(n % 10));
        proof {
            assert(old(out)@ + spec_decimal(n as int / 10) + seq![spec_digit(n as int % 10)]
                =~= old(out)@ + spec_decimal(n as int));
        }
    }
}

/// The text with ASCII capitals lowered.
pub open spec fn spec_ascii_lower(s: Seq<char>) -> Seq<char> {
    s.map_values(
        |c: char| if 'A' <= c <= 'Z' {
            ((c as u32) + 0x20) as char
        } else {
            c
        },
    )
}

/// Lowers ASCII capitals.
pub fn ascii_lower(chars: &Vec<char>) -> (r: Vec<char>)
    ensures
        r@ == spec_ascii_lower(chars@),
{
    let mut out: Vec<char> = Vec::new();
    let mut i: usize = 0;
    while i < chars.len()
        invariant
            i <= chars.len(),
            out@ == spec_ascii_lower(chars@.take(i as int)),
        decreases chars.len() - i,
    {
        let c = chars[i];
        if 'A' <= c && c <= 'Z' {
            let lowered = char_from_code((c as u32) + 0x20);
            out.push(lowered);
        } else {
            out.push(c);
        }
        proof {
            assert(out@ =~= spec_ascii_lower(chars@.take(i + 1)));
        }
        i = i + 1;
    }
    proof {
        assert(chars@.take(chars@.len() as int) =~= chars@);
    }
    out
}

/// Relies on `char::from_u32`: the character with a code point that is
/// known to be a valid one.
#[verifier::external_body]
fn char_from_code(v: u32) -> (r: char)
    requires
        v < 0xD800 || (0xE000 <= v < 0x11_0000),
    ensures
        r == v as char,
{
    char::from_u32(v).unwrap_or(' ')
}

/// The pattern occurs somewhere in the text, ignoring ASCII case.
pub open spec fn spec_contains_ci(s: Seq<char>, pat: Seq<char>) -> bool {
    spec_find(spec_ascii_lower(s), spec_ascii_lower(pat)) is Some
}

/// Decides a case-insensitive substring occurrence.
pub fn contains_ci(s: &Vec<char>, pat: &Vec<char>) -> (r: bool)
    ensures
        r == spec_contains_ci(s@, pat@),
{
    let ls = ascii_lower(s);
    let lp = ascii_lower(pat);
    match find_chars(&ls, &lp) {
        Some(_) => true,
        None => false,
    }
}

/// Compares two character vectors for equality.
pub fn chars_eq(a: &Vec<char>, b: &Vec<char>) -> (r: bool)
    ensures
        r == (a@ == b@),
{
    if a.len() != b.len() {
        proof {
            assert(a@.len() != b@.len());
        }
        return false;
    }
    let mut i: usize = 0;
    while i < a.len()
        invariant
            i <= a.len(),
            a@.len() == b@.len(),
            forall|j: int| 0 <= j < i ==> a@[j] == b@[j],
        decreases a.len() - i,
    {
        if a[i] != b[i] {
            return false;
        }
        i = i + 1;
    }
    proof {
        assert(a@ =~= b@);
    }
    true
}

/// Compares a character vector against a literal.
pub fn eq_lit(chars: &Vec<char>, lit: &str) -> (r: bool)
    ensures
        r == (chars@ == lit@),
{
    let pat = chars_of(lit);
    chars_eq(chars, &pat)
}

} // verus!
