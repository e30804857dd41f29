//! Release-notes formatting: markdown is flattened to plain text, issue and
//! commit links are folded to their short references, stray hex digests are
//! removed, and the result is truncated to whole lines and trimmed.

use vstd::prelude::*;
use crate::markdown::{md_events, spec_events_view, spec_md_events, MdEvent, MdEventS};
use crate::strutil::{
    chars_of, extend_chars, extend_str, push_decimal, spec_decimal, spec_find, spec_find_from,
    find_chars_from, match_at, string_from_chars,
};

verus! {

/// The character has the Unicode white-space property.
pub open spec fn spec_is_whitespace(c: char) -> bool {
    let u = c as u32;
    (0x09 <= u <= 0x0D) || u == 0x20 || u == 0x85 || u == 0xA0 || u == 0x1680 || (0x2000 <= u
        <= 0x200A) || u == 0x2028 || u == 0x2029 || u == 0x202F || u == 0x205F || u == 0x3000
}

/// Whether a character is white space, by the Unicode White_Space list.
pub fn is_whitespace_char(c: char) -> (r: bool)
    ensures
        r == spec_is_whitespace(c),
{
    let u = c as u32;
    (0x09 <= u && u <= 0x0D) || u == 0x20 || u == 0x85 || u == 0xA0 || u == 0x1680 || (0x2000 <= u
        && u <= 0x200A) || u == 0x2028 || u == 0x2029 || u == 0x202F || u == 0x205F || u == 0x3000
}

/// The text without its leading white space.
pub open spec fn spec_trim_start(s: Seq<char>) -> Seq<char>
    decreases s.len(),
{
    if s.len() > 0 && spec_is_whitespace(s[0]) {
        spec_trim_start(s.drop_first())
    } else {
        s
    }
}

/// The text without its trailing white space.
pub open spec fn spec_trim_end(s: Seq<char>) -> Seq<char>
    decreases s.len(),
{
    if s.len() > 0 && spec_is_whitespace(s[s.len() - 1]) {
        spec_trim_end(s.drop_last())
    } else {
        s
    }
}

/// The text without leading and trailing white space.
pub open spec fn spec_trim(s: Seq<char>) -> Seq<char> {
    spec_trim_end(spec_trim_start(s))
}

/// Trims white space off both ends.
#[verifier::rlimit(30)]
pub fn trim_chars(chars: &Vec<char>) -> (r: Vec<char>)
    ensures
        r@ == spec_trim(chars@),
{
    let mut start: usize = 0;
    proof {
        assert(chars@.skip(0) =~= chars@);
    }
    while start < chars.len() && is_whitespace_char(chars[start])
        invariant
            start <= chars.len(),
            spec_trim_start(chars@) == spec_trim_start(chars@.skip(start as int)),
        decreases chars.len() - start,
    {
        proof {
            assert(chars@.skip(start as int).drop_first() =~= chars@.skip(start + 1));
        }
        start = start + 1;
    }
    proof {
        assert(spec_trim_start(chars@.skip(start as int)) == chars@.skip(start as int));
    }
    let ghost t = chars@.skip(start as int);
    let mut end: usize = chars.len();
    proof {
        assert(t.take(t.len() as int) =~= t);
    }
    while end > start && is_whitespace_char(chars[end - 1])
        invariant
            start <= end <= chars.len(),
            t == chars@.skip(start as int),
            spec_trim_end(t) == spec_trim_end(t.take(end - start)),
        decreases end,
    {
        proof {
            assert(t.take(end - start)[end - start - 1] == chars@[end - 1]);
            assert(t.take(end - start).drop_last() =~= t.take(end - 1 - start));
        }
        end = end - 1;
    }
    proof {
        if end > start {
            assert(t.take(end - start)[end - start - 1] == chars@[end - 1]);
        }
        assert(spec_trim_end(t.take(end - start)) == t.take(end - start));
    }
    let mut out: Vec<char> = Vec::new();
    let mut i: usize = start;
    while i < end
        invariant
            start <= i <= end <= chars.len(),
            out@ == chars@.subrange(start as int, i as int),
        decreases end - i,
    {
        out.push(chars[i]);
        proof {
            assert(out@ =~= chars@.subrange(start as int, i + 1));
        }
        i = i + 1;
    }
    proof {
        assert(out@ =~= chars@.skip(start as int).take(end - start));
    }
    out
}

/// The lines of a text: the runs between newline characters, the last line
/// unterminated, each stripped of one trailing carriage return; a text
/// ending in a newline has no final empty line.
pub open spec fn spec_lines(s: Seq<char>) -> Seq<Seq<char>>
    decreases s.len(),
{
    if s.len() == 0 {
        Seq::empty()
    } else {
        match spec_find(s, seq!['\n']) {
            Some(i) => {
                let j = if 0 <= i < s.len() {
                    i
                } else {
                    s.len() - 1
                };
                seq![spec_strip_cr(s.take(j))] + spec_lines(s.skip(j + 1))
            },
            None => seq![spec_strip_cr(s)],
        }
    }
}

/// One trailing carriage return removed.
pub open spec fn spec_strip_cr(s: Seq<char>) -> Seq<char> {
    if s.len() > 0 && s[s.len() - 1] == '\r' {
        s.drop_last()
    } else {
        s
    }
}

fn strip_cr(line: Vec<char>) -> (r: Vec<char>)
    ensures
        r@ == spec_strip_cr(line@),
{
    let mut line = line;
    let ghost orig = line@;
    if line.len() > 0 && line[line.len() - 1] == '\r' {
        let _ = line.pop();
        proof {
            assert(line@ =~= spec_strip_cr(orig));
        }
    }
    line
}

/// Splits a text into its lines.
pub fn split_lines(chars: &Vec<char>) -> (r: Vec<Vec<char>>)
    ensures
        spec_lines_view(r@) == spec_lines(chars@),
{
    let mut out: Vec<Vec<char>> = Vec::new();
    let mut pos: usize = 0;
    proof {
        assert(chars@.skip(0) =~= chars@);
        assert(spec_lines_view(out@) =~= Seq::<Seq<char>>::empty());
        assert(Seq::<Seq<char>>::empty() + spec_lines(chars@) =~= spec_lines(chars@));
    }
    let nl: Vec<char> = {
        let mut v: Vec<char> = Vec::new();
        v.push('\n');
        proof {
            assert(v@ =~= seq!['\n']);
        }
        v
    };
    while pos < chars.len()
        invariant
            pos <= chars.len(),
            nl@ == seq!['\n'],
            spec_lines(chars@) == spec_lines_view(out@) + spec_lines(chars@.skip(pos as int)),
        decreases chars.len() - pos,
    {
        let ghost tail = chars@.skip(pos as int);
        let ghost out_entry = out@;
        let mut line: Vec<char> = Vec::new();
        let stop: usize = match find_chars_from(chars, &nl, pos) {
            Some(i) => {
                proof {
                    crate::strutil::lemma_find_from_props(chars@, nl@, pos as int);
                    lemma_find_shift(chars@, '\n', pos as int, i as int);
                }
                i
            },
            None => {
                proof {
                    lemma_find_shift_none(chars@, '\n', pos as int);
                }
                chars.len()
            },
        };
        let mut i: usize = pos;
        while i < stop
            invariant
                pos <= i <= stop <= chars.len(),
                line@ == chars@.subrange(pos as int, i as int),
            decreases stop - i,
        {
            line.push(chars[i]);
            proof {
                assert(line@ =~= chars@.subrange(pos as int, i + 1));
            }
            i = i + 1;
        }
        proof {
            assert(line@ =~= tail.take(stop - pos));
        }
        let line = strip_cr(line);
        out.push(line);
        proof {
            assert(spec_lines_view(out@) =~= spec_lines_view(out_entry).push(
                spec_strip_cr(tail.take(stop - pos)),
            ));
            if stop < chars@.len() {
                assert(tail.skip(stop - pos + 1) =~= chars@.skip(stop + 1));
                assert(spec_lines(tail) == seq![spec_strip_cr(tail.take(stop - pos))]
                    + spec_lines(chars@.skip(stop + 1)));
                assert(spec_lines_view(out_entry) + spec_lines(tail) =~= spec_lines_view(out@)
                    + spec_lines(chars@.skip(stop + 1)));
            } else {
                assert(tail.take(stop - pos) =~= tail);
                assert(spec_lines(tail) == seq![spec_strip_cr(tail)]);
                assert(chars@.skip(chars@.len() as int) =~= Seq::<char>::empty());
                assert(spec_lines_view(out_entry) + spec_lines(tail) =~= spec_lines_view(out@)
                    + spec_lines(Seq::<char>::empty()));
            }
        }
        pos = if stop < chars.len() {
            stop + 1
        } else {
            chars.len()
        };
    }
    proof {
        assert(chars@.skip(pos as int) =~= Seq::<char>::empty());
        assert(spec_lines_view(out@) + Seq::<Seq<char>>::empty() =~= spec_lines_view(out@));
    }
    out
}

/// The mathematical values of a line list.
pub open spec fn spec_lines_view(lines: Seq<Vec<char>>) -> Seq<Seq<char>> {
    lines.map_values(|l: Vec<char>| l@)
}

pub proof fn lemma_find_shift(s: Seq<char>, c: char, pos: int, i: int)
    requires
        0 <= pos <= s.len(),
        spec_find_from(s, seq![c], pos) == Some(i),
    ensures
        pos <= i < s.len(),
        s[i] == c,
        spec_find(s.skip(pos), seq![c]) == Some(i - pos),
        forall|j: int| pos <= j < i ==> s[j] != c,
    decreases s.len() + 1 - pos,
{
    crate::strutil::lemma_find_from_props(s, seq![c], pos);
    assert(match_at(s, seq![c], i));
    assert(s.subrange(i, i + 1) == seq![c]);
    assert(s.subrange(i, i + 1)[0] == s[i]);
    assert forall|j: int| pos <= j < i implies s[j] != c by {
        if s[j] == c {
            assert(s.subrange(j, j + 1) =~= seq![c]);
            assert(match_at(s, seq![c], j));
        }
    }
    let t = s.skip(pos);
    assert(t.subrange(i - pos, i - pos + 1) =~= seq![c]);
    assert(match_at(t, seq![c], i - pos));
    assert forall|j: int| 0 <= j < i - pos implies !match_at(t, seq![c], j) by {
        if match_at(t, seq![c], j) {
            assert(t.subrange(j, j + 1)[0] == t[j]);
            assert(s[pos + j] == '\n');
        }
    }
    lemma_find_first_match(t, c, i - pos);
}

pub proof fn lemma_find_shift_none(s: Seq<char>, c: char, pos: int)
    requires
        0 <= pos <= s.len(),
        spec_find_from(s, seq![c], pos) is None,
    ensures
        spec_find(s.skip(pos), seq![c]) is None,
{
    crate::strutil::lemma_find_from_props(s, seq![c], pos);
    let t = s.skip(pos);
    assert forall|j: int| 0 <= j implies !match_at(t, seq![c], j) by {
        if match_at(t, seq![c], j) {
            assert(j + 1 <= t.len());
            assert(t.subrange(j, j + 1)[0] == t[j]);
            assert(t[j] == c);
            assert(s[pos + j] == t[j]);
            assert(s.subrange(pos + j, pos + j + 1) =~= seq![c]);
            assert(match_at(s, seq![c], pos + j));
        }
    }
    lemma_find_no_match(t, c);
}

proof fn lemma_find_first_match(t: Seq<char>, c: char, i: int)
    requires
        0 <= i,
        match_at(t, seq![c], i),
        forall|j: int| 0 <= j < i ==> !match_at(t, seq![c], j),
    ensures
        spec_find(t, seq![c]) == Some(i),
{
    lemma_find_first_match_from(t, c, i, 0);
}

proof fn lemma_find_first_match_from(t: Seq<char>, c: char, i: int, from: int)
    requires
        0 <= from <= i,
        match_at(t, seq![c], i),
        forall|j: int| from <= j < i ==> !match_at(t, seq![c], j),
    ensures
        spec_find_from(t, seq![c], from) == Some(i),
    decreases i - from,
{
    if from == i {
    } else {
        lemma_find_first_match_from(t, c, i, from + 1);
    }
}

proof fn lemma_find_no_match(t: Seq<char>, c: char)
    requires
        forall|j: int| 0 <= j ==> !match_at(t, seq![c], j),
    ensures
        spec_find(t, seq![c]) is None,
{
    lemma_find_no_match_from(t, c, 0);
}

proof fn lemma_find_no_match_from(t: Seq<char>, c: char, from: int)
    requires
        0 <= from,
        forall|j: int| from <= j ==> !match_at(t, seq![c], j),
    ensures
        spec_find_from(t, seq![c], from) is None,
    decreases t.len() + 1 - from,
{
    if from + 1 > t.len() {
    } else {
        lemma_find_no_match_from(t, c, from + 1);
    }
}

/// The lines that fit in `n` characters, joined by newlines: lines are
/// taken in order while the running size — each line plus its newline —
/// stays within the budget.
pub open spec fn spec_join_within(lines: Seq<Seq<char>>, k: int, acc: Seq<char>, size: int, n: int) -> Seq<char>
    decreases lines.len() - k,
{
    if k < 0 || k >= lines.len() {
        acc
    } else {
        let prospective = size + lines[k].len() + 1;
        if prospective > n {
            acc
        } else {
            let acc2 = (if k != 0 {
                acc + seq!['\n']
            } else {
                acc
            }) + lines[k];
            spec_join_within(lines, k + 1, acc2, prospective, n)
        }
    }
}

/// The text truncated to whole lines within a budget of `n` characters: a
/// text already within the budget passes through unchanged.
pub open spec fn spec_truncate_with_lines(s: Seq<char>, n: int) -> Seq<char> {
    if s.len() <= n {
        s
    } else {
        spec_join_within(spec_lines(s), 0, Seq::empty(), 0, n)
    }
}

/// Truncates a text to whole lines within a budget of `N` characters.
pub fn truncate_with_lines<const N: usize>(input: &str) -> (r: String)
    ensures
        r@ == spec_truncate_with_lines(input@, N as int),
{
    let chars = chars_of(input);
    if chars.len() <= N {
        proof {
            assert(chars@ =~= input@);
        }
        return string_from_chars(&chars);
    }
    let lines = split_lines(&chars);
    let mut acc: Vec<char> = Vec::new();
    let mut size: usize = 0;
    let mut k: usize = 0;
    while k < lines.len()
        invariant
            k <= lines.len(),
            size <= N,
            chars@ == input@,
            N < chars@.len(),
            spec_lines_view(lines@) == spec_lines(chars@),
            spec_join_within(spec_lines_view(lines@), 0, Seq::empty(), 0, N as int)
                == spec_join_within(spec_lines_view(lines@), k as int, acc@, size as int, N as int),
        decreases lines.len() - k,
    {
        let line_len = lines[k].len();
        proof {
            assert(spec_lines_view(lines@)[k as int] == lines@[k as int]@);
        }
        if line_len >= N || line_len + 1 > N - size {
            proof {
                assert(size + spec_lines_view(lines@)[k as int].len() + 1 > N as int);
                assert(spec_join_within(
                    spec_lines_view(lines@),
                    k as int,
                    acc@,
                    size as int,
                    N as int,
                ) == acc@);
            }
            return string_from_chars(&acc);
        }
        let ghost acc_entry = acc@;
        if k != 0 {
            acc.push('\n');
        }
        extend_chars(&mut acc, &lines[k]);
        proof {
            if k != 0 {
                assert(acc@ =~= (acc_entry + seq!['\n']) + lines@[k as int]@);
            } else {
                assert(acc@ =~= acc_entry + lines@[k as int]@);
            }
        }
        size = size + line_len + 1;
        k = k + 1;
    }
    string_from_chars(&acc)
}

/// The character is an ASCII hexadecimal digit.
pub open spec fn spec_is_hex(c: char) -> bool {
    ('0' <= c && c <= '9') || ('a' <= c && c <= 'f') || ('A' <= c && c <= 'F')
}

fn is_hex(c: char) -> (r: bool)
    ensures
        r == spec_is_hex(c),
{
    ('0' <= c && c <= '9') || ('a' <= c && c <= 'f') || ('A' <= c && c <= 'F')
}

/// Removes every 40-character hexadecimal run from a text: shorter runs
/// pass through; a run cut off at 40 digits swallows the character that
/// ends it.
pub open spec fn spec_remove_sha1_step(result: Seq<char>, hexbuf: Seq<char>, rest: Seq<char>) -> Seq<char>
    decreases rest.len(),
{
    if rest.len() == 0 {
        if hexbuf.len() != 40 {
            result + hexbuf
        } else {
            result
        }
    } else {
        let c = rest[0];
        if spec_is_hex(c) && hexbuf.len() < 40 {
            spec_remove_sha1_step(result, hexbuf.push(c), rest.drop_first())
        } else if !spec_is_hex(c) && hexbuf.len() == 40 {
            spec_remove_sha1_step(result, Seq::empty(), rest.drop_first())
        } else {
            spec_remove_sha1_step(result + hexbuf + seq![c], Seq::empty(), rest.drop_first())
        }
    }
}

pub open spec fn spec_remove_sha1(s: Seq<char>) -> Seq<char> {
    spec_remove_sha1_step(Seq::empty(), Seq::empty(), s)
}

/// Removes every 40-character hexadecimal digest from a text.
pub fn remove_sha1_chars(input: &Vec<char>) -> (r: Vec<char>)
    ensures
        r@ == spec_remove_sha1(input@),
{
    let mut result: Vec<char> = Vec::new();
    let mut hexbuf: Vec<char> = Vec::new();
    let mut i: usize = 0;
    proof {
        assert(input@.skip(0) =~= input@);
    }
    while i < input.len()
        invariant
            i <= input.len(),
            hexbuf@.len() <= 40,
            spec_remove_sha1(input@) == spec_remove_sha1_step(
                result@,
                hexbuf@,
                input@.skip(i as int),
            ),
        decreases input.len() - i,
    {
        let c = input[i];
        proof {
            assert(input@.skip(i as int)[0] == input@[i as int]);
            assert(input@.skip(i as int).drop_first() =~= input@.skip(i + 1));
        }
        if is_hex(c) && hexbuf.len() < 40 {
            hexbuf.push(c);
        } else if !is_hex(c) && hexbuf.len() == 40 {
            hexbuf = Vec::new();
        } else {
            let ghost result_entry = result@;
            let ghost hexbuf_entry = hexbuf@;
            extend_chars(&mut result, &hexbuf);
            result.push(c);
            hexbuf = Vec::new();
            proof {
                assert(result@ =~= result_entry + hexbuf_entry + seq![c]);
                assert(hexbuf@ =~= Seq::<char>::empty());
            }
        }
        i = i + 1;
    }
    if hexbuf.len() != 40 {
        extend_chars(&mut result, &hexbuf);
    }
    proof {
        assert(input@.skip(input@.len() as int) =~= Seq::<char>::empty());
    }
    result
}

/// The segments of a text split at a separator character; a text without
/// the separator is one segment, and a trailing separator yields a final
/// empty segment.
pub open spec fn spec_split(s: Seq<char>, sep: char) -> Seq<Seq<char>>
    decreases s.len(),
{
    match spec_find(s, seq![sep]) {
        Some(i) => {
            let j = if 0 <= i < s.len() {
                i
            } else {
                0
            };
            if j + 1 <= s.len() {
                seq![s.take(j)] + spec_split(s.skip(j + 1), sep)
            } else {
                seq![s]
            }
        },
        None => seq![s],
    }
}

/// Splits a text at a separator character.
pub fn split_char(chars: &Vec<char>, sep: char) -> (r: Vec<Vec<char>>)
    ensures
        spec_lines_view(r@) == spec_split(chars@, sep),
{
    let mut out: Vec<Vec<char>> = Vec::new();
    let mut pos: usize = 0;
    proof {
        assert(chars@.skip(0) =~= chars@);
        assert(spec_lines_view(out@) =~= Seq::<Seq<char>>::empty());
        assert(Seq::<Seq<char>>::empty() + spec_split(chars@, sep) =~= spec_split(chars@, sep));
    }
    let sv: Vec<char> = {
        let mut v: Vec<char> = Vec::new();
        v.push(sep);
        proof {
            assert(v@ =~= seq![sep]);
        }
        v
    };
    loop
        invariant
            pos <= chars.len(),
            sv@ == seq![sep],
            spec_split(chars@, sep) == spec_lines_view(out@) + spec_split(
                chars@.skip(pos as int),
                sep,
            ),
        decreases chars.len() + 1 - pos,
    {
        let ghost tail = chars@.skip(pos as int);
        let ghost out_entry = out@;
        let (stop, found): (usize, bool) = match find_chars_from(chars, &sv, pos) {
            Some(i) => {
                proof {
                    lemma_find_shift(chars@, sep, pos as int, i as int);
                }
                (i, true)
            },
            None => {
                proof {
                    lemma_find_shift_none(chars@, sep, pos as int);
                }
                (chars.len(), false)
            },
        };
        let mut piece: Vec<char> = Vec::new();
        let mut i: usize = pos;
        while i < stop
            invariant
                pos <= i <= stop <= chars.len(),
                piece@ == chars@.subrange(pos as int, i as int),
            decreases stop - i,
        {
            piece.push(chars[i]);
            proof {
                assert(piece@ =~= chars@.subrange(pos as int, i + 1));
            }
            i = i + 1;
        }
        proof {
            assert(piece@ =~= tail.take(stop - pos));
        }
        out.push(piece);
        proof {
            assert(spec_lines_view(out@) =~= spec_lines_view(out_entry).push(
                tail.take(stop - pos),
            ));
        }
        if found {
            proof {
                assert(tail.skip(stop - pos + 1) =~= chars@.skip(stop + 1));
                assert(spec_split(tail, sep) == seq![tail.take(stop - pos)] + spec_split(
                    chars@.skip(stop + 1),
                    sep,
                ));
                assert(spec_lines_view(out_entry) + spec_split(tail, sep) =~= spec_lines_view(
                    out@,
                ) + spec_split(chars@.skip(stop + 1), sep));
            }
            pos = stop + 1;
        } else {
            proof {
                assert(tail.take(stop - pos) =~= tail);
                assert(spec_split(tail, sep) == seq![tail]);
                assert(spec_lines_view(out_entry) + spec_split(tail, sep) =~= spec_lines_view(
                    out@,
                ));
            }
            return out;
        }
    }
}

/// The text with every repetition of a leading pattern removed.
pub open spec fn spec_strip_prefix_rep(s: Seq<char>, pat: Seq<char>) -> Seq<char>
    decreases s.len(),
{
    if pat.len() > 0 && match_at(s, pat, 0) {
        spec_strip_prefix_rep(s.skip(pat.len() as int), pat)
    } else {
        s
    }
}

/// Strips every repetition of a leading pattern.
pub fn strip_prefix_rep(chars: &Vec<char>, pat: &Vec<char>) -> (r: Vec<char>)
    ensures
        r@ == spec_strip_prefix_rep(chars@, pat@),
{
    let mut start: usize = 0;
    proof {
        assert(chars@.skip(0) =~= chars@);
    }
    loop
        invariant
            start <= chars.len(),
            spec_strip_prefix_rep(chars@, pat@) == spec_strip_prefix_rep(
                chars@.skip(start as int),
                pat@,
            ),
        decreases chars.len() + 1 - start,
    {
        let ghost tail = chars@.skip(start as int);
        let remaining = chars.len() - start;
        if pat.len() == 0 || pat.len() > remaining {
            proof {
                assert(spec_strip_prefix_rep(tail, pat@) == tail);
            }
            return copy_from(chars, start);
        }
        let mut k: usize = 0;
        let mut matches = true;
        while k < pat.len()
            invariant
                k <= pat.len(),
                start + pat.len() <= chars.len(),
                matches == (forall|m: int| 0 <= m < k ==> chars@[start + m] == pat@[m]),
            decreases pat.len() - k,
        {
            if chars[start + k] != pat[k] {
                matches = false;
                k = pat.len();
            } else {
                k = k + 1;
            }
        }
        if matches {
            proof {
                assert(tail.subrange(0, pat@.len() as int) =~= pat@);
                assert(match_at(tail, pat@, 0));
                assert(tail.skip(pat@.len() as int) =~= chars@.skip(start + pat@.len()));
            }
            start = start + pat.len();
        } else {
            proof {
                let m = choose|m: int| 0 <= m < pat@.len() && chars@[start + m] != pat@[m];
                if match_at(tail, pat@, 0) {
                    assert(tail.subrange(0, pat@.len() as int)[m] == tail[m]);
                }
                assert(!match_at(tail, pat@, 0));
                assert(spec_strip_prefix_rep(tail, pat@) == tail);
            }
            return copy_from(chars, start);
        }
    }
}

fn copy_from(chars: &Vec<char>, start: usize) -> (r: Vec<char>)
    requires
        start <= chars@.len(),
    ensures
        r@ == chars@.skip(start as int),
{
    let mut out: Vec<char> = Vec::new();
    let mut i: usize = start;
    while i < chars.len()
        invariant
            start <= i <= chars.len(),
            out@ == chars@.subrange(start as int, i as int),
        decreases chars.len() - i,
    {
        out.push(chars[i]);
        proof {
            assert(out@ =~= chars@.subrange(start as int, i + 1));
        }
        i = i + 1;
    }
    proof {
        assert(out@ =~= chars@.skip(start as int));
    }
    out
}

/// The numeric value of a run of decimal digits.
pub open spec fn spec_dec_value(s: Seq<char>) -> int
    decreases s.len(),
{
    if s.len() == 0 {
        0
    } else {
        spec_dec_value(s.drop_last()) * 10 + (s[s.len() - 1] as int - '0' as int)
    }
}

/// Every character is a decimal digit.
pub open spec fn spec_all_digits(s: Seq<char>) -> bool {
    forall|i: int| 0 <= i < s.len() ==> '0' <= #[trigger] s[i] <= '9'
}

/// The text parses as a positive 32-bit integer: an optional leading plus
/// sign, then at least one digit, with a value between one and the 32-bit
/// maximum.
pub open spec fn spec_parses_nonzero_u32(s: Seq<char>) -> bool {
    let t = if s.len() > 0 && s[0] == '+' {
        s.drop_first()
    } else {
        s
    };
    t.len() > 0 && spec_all_digits(t) && 1 <= spec_dec_value(t) <= 0xFFFF_FFFF
}

/// Decides whether a text parses as a positive 32-bit integer.
pub fn parses_nonzero_u32(chars: &Vec<char>) -> (r: bool)
    ensures
        r == spec_parses_nonzero_u32(chars@),
{
    let start: usize = if chars.len() > 0 && chars[0] == '+' {
        1
    } else {
        0
    };
    let ghost t = if chars@.len() > 0 && chars@[0] == '+' {
        chars@.drop_first()
    } else {
        chars@
    };
    proof {
        if start == 1 {
            assert(t =~= chars@.skip(1));
        } else {
            assert(t =~= chars@.skip(0));
        }
    }
    if chars.len() == start {
        return false;
    }
    let mut value: u64 = 0;
    let mut i: usize = start;
    while i < chars.len()
        invariant
            start <= i <= chars.len(),
            start == 1 <==> chars@.len() > 0 && chars@[0] == '+',
            t == (if chars@.len() > 0 && chars@[0] == '+' {
                chars@.drop_first()
            } else {
                chars@
            }),
            t == chars@.skip(start as int),
            t.len() == chars@.len() - start,
            spec_all_digits(t.take(i - start)),
            value == spec_dec_value(t.take(i - start)),
            value <= 0xFFFF_FFFF,
        decreases chars.len() - i,
    {
        let c = chars[i];
        proof {
            assert(t[i - start] == chars@[i as int]);
        }
        if c < '0' || c > '9' {
            proof {
                assert(!('0' <= t[i - start] <= '9'));
                assert(!spec_all_digits(t));
            }
            return false;
        }
        let d = (c as u32) - 0x30;
        let ghost k = i - start + 1;
        proof {
            assert(t.take(k).drop_last() =~= t.take(i - start));
            assert(t.take(k)[k - 1] == chars@[i as int]);
            assert(spec_dec_value(t.take(k)) == value * 10 + d);
            assert(spec_all_digits(t.take(k))) by {
                assert(forall|m: int| 0 <= m < k ==> #[trigger] t.take(k)[m] == t[m]);
            }
        }
        if value > 0xFFFF_FFFF / 10 || (value == 0xFFFF_FFFF / 10 && d as u64 > 0xFFFF_FFFF % 10) {
            proof {
                assert(spec_dec_value(t.take(k)) > 0xFFFF_FFFF);
                lemma_dec_value_grows(t, k);
                assert(!spec_parses_nonzero_u32(chars@));
            }
            return false;
        }
        value = value * 10 + d as u64;
        i = i + 1;
    }
    proof {
        assert(t.take(t.len() as int) =~= t);
    }
    value >= 1
}

proof fn lemma_dec_value_grows(t: Seq<char>, k: int)
    requires
        0 < k <= t.len(),
        spec_all_digits(t.take(k)),
        spec_dec_value(t.take(k)) > 0xFFFF_FFFF,
    ensures
        spec_all_digits(t) ==> spec_dec_value(t) > 0xFFFF_FFFF,
    decreases t.len() - k,
{
    if k == t.len() {
        assert(t.take(k) =~= t);
    } else {
        if spec_all_digits(t) {
            assert(t.take(k + 1).drop_last() =~= t.take(k));
            assert('0' <= t.take(k + 1)[k] <= '9');
            assert(spec_dec_value(t.take(k + 1)) >= spec_dec_value(t.take(k)) * 10);
            assert(spec_all_digits(t.take(k + 1))) by {
                assert(forall|i: int|
                    0 <= i < k + 1 ==> #[trigger] t.take(k + 1)[i] == t[i]);
            }
            lemma_dec_value_grows(t, k + 1);
        }
    }
}

/// Every character is a hexadecimal digit.
pub open spec fn spec_all_hex(s: Seq<char>) -> bool {
    forall|i: int| 0 <= i < s.len() ==> spec_is_hex(#[trigger] s[i])
}

fn all_hex(chars: &Vec<char>) -> (r: bool)
    ensures
        r == spec_all_hex(chars@),
{
    let mut i: usize = 0;
    while i < chars.len()
        invariant
            i <= chars.len(),
            forall|j: int| 0 <= j < i ==> spec_is_hex(#[trigger] chars@[j]),
        decreases chars.len() - i,
    {
        if !is_hex(chars[i]) {
            return false;
        }
        i = i + 1;
    }
    true
}

/// The least position at or after `from` of a white-space character.
pub open spec fn spec_find_ws(s: Seq<char>, from: int) -> Option<int>
    decreases s.len() + 1 - from,
{
    if from < 0 || from >= s.len() {
        None
    } else if spec_is_whitespace(s[from]) {
        Some(from)
    } else {
        spec_find_ws(s, from + 1)
    }
}

fn find_ws(chars: &Vec<char>, from: usize) -> (r: Option<usize>)
    ensures
        match r {
            Some(i) => spec_find_ws(chars@, from as int) == Some(i as int) && from <= i
                < chars@.len(),
            None => spec_find_ws(chars@, from as int) is None,
        },
{
    let mut i: usize = from;
    while i < chars.len()
        invariant
            from <= i,
            spec_find_ws(chars@, from as int) == spec_find_ws(chars@, i as int),
        decreases chars.len() - i,
    {
        if is_whitespace_char(chars[i]) {
            return Some(i);
        }
        i = i + 1;
    }
    None
}

proof fn lemma_find_ws_shift(s: Seq<char>, pos: int, from: int)
    requires
        0 <= pos <= s.len(),
        pos <= from,
    ensures
        match spec_find_ws(s, from) {
            Some(i) => spec_find_ws(s.skip(pos), from - pos) == Some(i - pos),
            None => spec_find_ws(s.skip(pos), from - pos) is None,
        },
    decreases s.len() + 1 - from,
{
    let t = s.skip(pos);
    if from >= s.len() {
    } else {
        assert(t[from - pos] == s[from]);
        if spec_is_whitespace(s[from]) {
        } else {
            lemma_find_ws_shift(s, pos, from + 1);
        }
    }
}

/// What one found link collapses to. The address is split into its
/// segments past the host prefix: an issue or pull-request link with a
/// sound number becomes `#number` — qualified with `owner/repo` when it
/// points at another repository, and marked when it points at a comment; a
/// compare or release link passes through whole; a commit link with a full
/// 40-digit hash becomes the 7-digit short hash; anything else is dropped.
pub open spec fn spec_url_replacement(url: Seq<char>, owner: Seq<char>, repo: Seq<char>) -> Seq<
    char,
> {
    let parts = spec_split(spec_strip_prefix_rep(url, "https://github.com/"@), '/');
    if parts.len() >= 4 {
        let repo_owner = parts[0];
        let repo_name = parts[1];
        let kind = parts[2];
        let resource = parts[3];
        if kind == "pull"@ || kind == "issues"@ {
            let split = match spec_find(resource, "#issuecomment"@) {
                Some(i) => (resource.take(i), resource.skip(i + "#issuecomment"@.len())),
                None => (resource, Seq::<char>::empty()),
            };
            if spec_parses_nonzero_u32(split.0) {
                (if repo_owner != owner || repo_name != repo {
                    repo_owner + seq!['/'] + repo_name
                } else {
                    Seq::<char>::empty()
                }) + seq!['#'] + split.0 + (if split.1.len() > 0 {
                    " (comment)"@
                } else {
                    Seq::<char>::empty()
                })
            } else {
                Seq::<char>::empty()
            }
        } else if kind == "compare"@ || kind == "releases"@ {
            url
        } else if kind == "commit"@ && resource.len() == 40 && spec_all_hex(resource) {
            resource.take(7)
        } else {
            Seq::<char>::empty()
        }
    } else {
        Seq::<char>::empty()
    }
}

fn copy_range(chars: &Vec<char>, start: usize, end: usize) -> (r: Vec<char>)
    requires
        start <= end <= chars@.len(),
    ensures
        r@ == chars@.subrange(start as int, end as int),
{
    let mut out: Vec<char> = Vec::new();
    let mut i: usize = start;
    while i < end
        invariant
            start <= i <= end <= chars.len(),
            out@ == chars@.subrange(start as int, i as int),
        decreases end - i,
    {
        out.push(chars[i]);
        proof {
            assert(out@ =~= chars@.subrange(start as int, i + 1));
        }
        i = i + 1;
    }
    out
}

/// Collapses one found link.
fn url_replacement(url: &Vec<char>, owner: &Vec<char>, repo: &Vec<char>) -> (r: Vec<char>)
    ensures
        r@ == spec_url_replacement(url@, owner@, repo@),
{
    let prefix = chars_of("https://github.com/");
    let stripped = strip_prefix_rep(url, &prefix);
    let parts = split_char(&stripped, '/');
    proof {
        assert(spec_lines_view(parts@) == spec_split(
            spec_strip_prefix_rep(url@, "https://github.com/"@),
            '/',
        ));
    }
    let mut out: Vec<char> = Vec::new();
    if parts.len() >= 4 {
        proof {
            assert(spec_lines_view(parts@)[0] == parts@[0]@);
            assert(spec_lines_view(parts@)[1] == parts@[1]@);
            assert(spec_lines_view(parts@)[2] == parts@[2]@);
            assert(spec_lines_view(parts@)[3] == parts@[3]@);
        }
        let pull = chars_of("pull");
        let issues = chars_of("issues");
        let compare = chars_of("compare");
        let releases = chars_of("releases");
        let commit = chars_of("commit");
        if crate::strutil::chars_eq(&parts[2], &pull) || crate::strutil::chars_eq(&parts[2], &issues) {
            let marker = chars_of("#issuecomment");
            let resource = &parts[3];
            let (num, comment): (Vec<char>, Vec<char>) = match crate::strutil::find_chars(
                resource,
                &marker,
            ) {
                Some(i) => {
                    proof {
                        crate::strutil::lemma_find_from_props(resource@, marker@, 0);
                        assert(match_at(resource@, marker@, i as int));
                        assert(i + marker.len() <= resource.len());
                    }
                    let num = copy_range(resource, 0, i);
                    let comment = copy_range(resource, i + marker.len(), resource.len());
                    proof {
                        assert(num@ =~= resource@.take(i as int));
                        assert(comment@ =~= resource@.skip(i + "#issuecomment"@.len()));
                    }
                    (num, comment)
                },
                None => {
                    let num = copy_range(resource, 0, resource.len());
                    proof {
                        assert(num@ =~= resource@);
                    }
                    (num, Vec::new())
                },
            };
            if parses_nonzero_u32(&num) {
                if !crate::strutil::chars_eq(&parts[0], owner) || !crate::strutil::chars_eq(&parts[1], repo) {
                    extend_chars(&mut out, &parts[0]);
                    out.push('/');
                    extend_chars(&mut out, &parts[1]);
                }
                out.push('#');
                extend_chars(&mut out, &num);
                if comment.len() > 0 {
                    extend_str(&mut out, " (comment)");
                }
                proof {
                    assert(out@ =~= spec_url_replacement(url@, owner@, repo@));
                }
            }
        } else if crate::strutil::chars_eq(&parts[2], &compare) || crate::strutil::chars_eq(&parts[2], &releases) {
            extend_chars(&mut out, url);
            proof {
                assert(out@ =~= url@);
            }
        } else if crate::strutil::chars_eq(&parts[2], &commit) && parts[3].len() == 40 && all_hex(&parts[3]) {
            let short = copy_range(&parts[3], 0, 7);
            extend_chars(&mut out, &short);
            proof {
                assert(out@ =~= parts@[3]@.take(7));
            }
        }
    }
    proof {
        assert(out@ =~= spec_url_replacement(url@, owner@, repo@));
    }
    out
}

/// The text with every contained link collapsed: the stretch before each
/// found link passes through, the link — up to the next white space — is
/// replaced, and the search resumes after it.
pub open spec fn spec_rewrite_urls(rest: Seq<char>, owner: Seq<char>, repo: Seq<char>) -> Seq<
    char,
>
    decreases rest.len(),
{
    match spec_find(rest, "https://github.com/"@) {
        None => rest,
        Some(start0) => {
            if rest.len() == 0 {
                rest
            } else {
                let start = if 0 <= start0 < rest.len() {
                    start0
                } else {
                    0
                };
                let tail = rest.skip(start);
                let e0 = match spec_find_ws(tail, 0) {
                    Some(x) => x,
                    None => tail.len() as int,
                };
                let adv = if e0 < 1 {
                    1
                } else if e0 > tail.len() {
                    tail.len() as int
                } else {
                    e0
                };
                rest.take(start) + spec_url_replacement(tail.take(adv), owner, repo)
                    + spec_rewrite_urls(tail.skip(adv), owner, repo)
            }
        },
    }
}

/// Collapses every contained link of a text.
pub fn rewrite_github_urls(text: &Vec<char>, owner: &Vec<char>, repo: &Vec<char>) -> (r: Vec<
    char,
>)
    ensures
        r@ == spec_rewrite_urls(text@, owner@, repo@),
{
    let prefix = chars_of("https://github.com/");
    let mut result: Vec<char> = Vec::new();
    let mut pos: usize = 0;
    proof {
        reveal_strlit("https://github.com/");
        assert(text@.skip(0) =~= text@);
        assert(Seq::<char>::empty() + spec_rewrite_urls(text@, owner@, repo@) =~= spec_rewrite_urls(
            text@,
            owner@,
            repo@,
        ));
    }
    loop
        invariant
            pos <= text.len(),
            prefix@ == "https://github.com/"@,
            prefix@.len() == 19,
            spec_rewrite_urls(text@, owner@, repo@) == result@ + spec_rewrite_urls(
                text@.skip(pos as int),
                owner@,
                repo@,
            ),
        decreases text.len() + 1 - pos,
    {
        let ghost tail0 = text@.skip(pos as int);
        let ghost result_entry = result@;
        match find_chars_from(text, &prefix, pos) {
            None => {
                proof {
                    lemma_find_shift_seq_none(text@, prefix@, pos as int);
                }
                let restpart = copy_range(text, pos, text.len());
                extend_chars(&mut result, &restpart);
                proof {
                    assert(restpart@ =~= tail0);
                    assert(spec_rewrite_urls(tail0, owner@, repo@) == tail0);
                }
                return result;
            },
            Some(i) => {
                proof {
                    crate::strutil::lemma_find_from_props(text@, prefix@, pos as int);
                    lemma_find_shift_seq(text@, prefix@, pos as int, i as int);
                }
                let head = copy_range(text, pos, i);
                extend_chars(&mut result, &head);
                let ghost tail = text@.skip(i as int);
                proof {
                    assert(match_at(text@, prefix@, i as int));
                    assert(i + 19 <= text@.len());
                }
                let e0: usize = match find_ws(text, i) {
                    Some(x) => {
                        proof {
                            lemma_find_ws_shift(text@, i as int, i as int);
                        }
                        x - i
                    },
                    None => {
                        proof {
                            lemma_find_ws_shift(text@, i as int, i as int);
                        }
                        text.len() - i
                    },
                };
                proof {
                    assert(e0 <= text@.len() - i);
                }
                let adv: usize = if e0 < 1 {
                    1
                } else {
                    e0
                };
                let url = copy_range(text, i, i + adv);
                let repl = url_replacement(&url, owner, repo);
                extend_chars(&mut result, &repl);
                proof {
                    assert(url@ =~= tail.take(adv as int));
                    assert(head@ =~= tail0.take(i - pos));
                    assert(tail =~= tail0.skip(i - pos));
                    assert(tail.skip(adv as int) =~= text@.skip(i + adv));
                    assert(spec_rewrite_urls(tail0, owner@, repo@) == tail0.take(i - pos)
                        + spec_url_replacement(tail.take(adv as int), owner@, repo@)
                        + spec_rewrite_urls(text@.skip(i + adv), owner@, repo@));
                    assert(result@ =~= result_entry + tail0.take(i - pos) + spec_url_replacement(
                        tail.take(adv as int),
                        owner@,
                        repo@,
                    ));
                    assert(result_entry + spec_rewrite_urls(tail0, owner@, repo@) =~= result@
                        + spec_rewrite_urls(text@.skip(i + adv), owner@, repo@));
                }
                pos = i + adv;
            },
        }
    }
}

proof fn lemma_find_shift_seq(s: Seq<char>, pat: Seq<char>, pos: int, i: int)
    requires
        0 <= pos <= s.len(),
        pat.len() > 0,
        spec_find_from(s, pat, pos) == Some(i),
    ensures
        pos <= i,
        i + pat.len() <= s.len(),
        spec_find(s.skip(pos), pat) == Some(i - pos),
{
    crate::strutil::lemma_find_from_props(s, pat, pos);
    let t = s.skip(pos);
    assert(t.subrange(i - pos, i - pos + pat.len()) =~= s.subrange(i, i + pat.len()));
    assert(match_at(t, pat, i - pos));
    assert forall|j: int| 0 <= j < i - pos implies !match_at(t, pat, j) by {
        if match_at(t, pat, j) {
            assert(s.subrange(pos + j, pos + j + pat.len()) =~= t.subrange(j, j + pat.len()));
            assert(match_at(s, pat, pos + j));
        }
    }
    lemma_find_first_match_seq_from(t, pat, i - pos, 0);
}

proof fn lemma_find_shift_seq_none(s: Seq<char>, pat: Seq<char>, pos: int)
    requires
        0 <= pos <= s.len(),
        pat.len() > 0,
        spec_find_from(s, pat, pos) is None,
    ensures
        spec_find(s.skip(pos), pat) is None,
{
    crate::strutil::lemma_find_from_props(s, pat, pos);
    let t = s.skip(pos);
    assert forall|j: int| 0 <= j implies !match_at(t, pat, j) by {
        if match_at(t, pat, j) {
            assert(s.subrange(pos + j, pos + j + pat.len()) =~= t.subrange(j, j + pat.len()));
            assert(match_at(s, pat, pos + j));
        }
    }
    lemma_find_none_seq_from(t, pat, 0);
}

proof fn lemma_find_first_match_seq_from(t: Seq<char>, pat: Seq<char>, i: int, from: int)
    requires
        0 <= from <= i,
        match_at(t, pat, i),
        forall|j: int| 0 <= j < i ==> !match_at(t, pat, j),
    ensures
        spec_find_from(t, pat, from) == Some(i),
    decreases i - from,
{
    if from == i {
    } else {
        lemma_find_first_match_seq_from(t, pat, i, from + 1);
    }
}

proof fn lemma_find_none_seq_from(t: Seq<char>, pat: Seq<char>, from: int)
    requires
        0 <= from,
        forall|j: int| 0 <= j ==> !match_at(t, pat, j),
    ensures
        spec_find_from(t, pat, from) is None,
    decreases t.len() + 1 - from,
{
    if from + pat.len() > t.len() {
    } else {
        lemma_find_none_seq_from(t, pat, from + 1);
    }
}

/// The formatter's running state: the flattened text, the ordered-list
/// counter per nesting level, and the current item nesting level.
pub struct FmtState {
    pub buffer: Seq<char>,
    pub counters: Seq<Option<u64>>,
    pub level: int,
}

pub open spec fn spec_initial_state() -> FmtState {
    FmtState { buffer: Seq::empty(), counters: Seq::empty(), level: 0 }
}

/// The buffer ends with a newline.
pub open spec fn spec_ends_nl(b: Seq<char>) -> bool {
    b.len() > 0 && b[b.len() - 1] == '\n'
}

/// The buffer with a newline appended unless it already ends with one.
pub open spec fn spec_ensure_nl(b: Seq<char>) -> Seq<char> {
    if spec_ends_nl(b) {
        b
    } else {
        b.push('\n')
    }
}

/// The counter at a nesting level, if one is set.
pub open spec fn spec_counter_get(cs: Seq<Option<u64>>, level: int) -> Option<u64> {
    if 0 <= level < cs.len() {
        cs[level]
    } else {
        None
    }
}

/// The counters with the one at a nesting level set, growing the list as
/// needed.
pub open spec fn spec_counter_set(cs: Seq<Option<u64>>, level: int, v: u64) -> Seq<Option<u64>> {
    if 0 <= level < cs.len() {
        cs.update(level, Some(v))
    } else if level >= 0 {
        cs + Seq::new((level - cs.len()) as nat, |i: int| None) + seq![Some(v)]
    } else {
        cs
    }
}

/// The counters with the one at a nesting level cleared.
pub open spec fn spec_counter_clear(cs: Seq<Option<u64>>, level: int) -> Seq<Option<u64>> {
    if 0 <= level < cs.len() {
        cs.update(level, None)
    } else {
        cs
    }
}

/// The indentation of a nesting level: four spaces per level.
pub open spec fn spec_indent(level: int) -> Seq<char> {
    if level >= 0 {
        Seq::new((4 * level) as nat, |i: int| ' ')
    } else {
        Seq::empty()
    }
}

/// An ordered-list counter advances with wrap-around.
pub open spec fn spec_wrap_inc(v: u64) -> u64 {
    if v == 0xFFFF_FFFF_FFFF_FFFFu64 {
        0
    } else {
        (v + 1) as u64
    }
}

/// A text with every tab replaced by a space.
pub open spec fn spec_untab(t: Seq<char>) -> Seq<char> {
    t.map_values(|c: char| if c == '\t' {
        ' '
    } else {
        c
    })
}

/// How one markdown event advances the formatter: block boundaries force a
/// newline; list items indent by level and take either their running
/// counter or a dash; closing an item folds an empty dash away and
/// un-nests; closing a list clears its counter and swallows one trailing
/// newline inside nested lists; text is link-collapsed and digest-stripped
/// on the way in.
pub open spec fn spec_apply_event(
    st: FmtState,
    ev: MdEventS,
    owner: Seq<char>,
    repo: Seq<char>,
) -> FmtState {
    match ev {
        MdEventS::BlockStart => FmtState { buffer: spec_ensure_nl(st.buffer), ..st },
        MdEventS::BlockEnd => FmtState { buffer: spec_ensure_nl(st.buffer), ..st },
        MdEventS::TitleText(t) => FmtState { buffer: st.buffer + t, ..st },
        MdEventS::ListStart(first) => {
            let cs = match first {
                Some(idx) => spec_counter_set(st.counters, st.level, idx),
                None => st.counters,
            };
            FmtState { buffer: spec_ensure_nl(st.buffer), counters: cs, level: st.level }
        },
        MdEventS::ItemStart => {
            let indented = st.buffer + spec_indent(st.level);
            match spec_counter_get(st.counters, st.level) {
                Some(idx) => FmtState {
                    buffer: indented + spec_decimal(idx as int) + ". "@,
                    counters: spec_counter_set(st.counters, st.level, spec_wrap_inc(idx)),
                    level: st.level + 1,
                },
                None => FmtState {
                    buffer: indented + "- "@,
                    counters: st.counters,
                    level: st.level + 1,
                },
            }
        },
        MdEventS::ListEnd => {
            let b = if st.level >= 1 && spec_ends_nl(st.buffer) {
                st.buffer.drop_last()
            } else {
                st.buffer
            };
            FmtState { buffer: b, counters: spec_counter_clear(st.counters, st.level), level: st.level }
        },
        MdEventS::ItemEnd => {
            let b = if st.buffer.len() >= 2 && st.buffer[st.buffer.len() - 2] == '-'
                && st.buffer[st.buffer.len() - 1] == ' ' {
                st.buffer.take(st.buffer.len() - 2)
            } else {
                st.buffer.push('\n')
            };
            FmtState {
                buffer: b,
                counters: st.counters,
                level: if st.level > 0 {
                    st.level - 1
                } else {
                    0
                },
            }
        },
        MdEventS::Text(t) => FmtState {
            buffer: st.buffer + spec_remove_sha1(spec_rewrite_urls(t, owner, repo)),
            ..st
        },
        MdEventS::Code(t) => FmtState { buffer: st.buffer + spec_untab(t), ..st },
        MdEventS::Html(t) => FmtState { buffer: st.buffer + t, ..st },
        MdEventS::LineBreak => FmtState { buffer: st.buffer.push('\n'), ..st },
        MdEventS::Nothing => st,
    }
}

/// The state after folding the events from position `k` on.
pub open spec fn spec_fold_events(
    events: Seq<MdEventS>,
    k: int,
    st: FmtState,
    owner: Seq<char>,
    repo: Seq<char>,
) -> FmtState
    decreases events.len() - k,
{
    if k < 0 || k >= events.len() {
        st
    } else {
        spec_fold_events(events, k + 1, spec_apply_event(st, events[k], owner, repo), owner, repo)
    }
}

/// What the whole format run yields for an event list: the folded text,
/// truncated to whole lines within the length ceiling and trimmed; nothing
/// where the sanitized text is empty or over the ceiling.
pub open spec fn spec_format_events(
    events: Seq<MdEventS>,
    owner: Seq<char>,
    repo: Seq<char>,
) -> Option<Seq<char>> {
    let st = spec_fold_events(events, 0, spec_initial_state(), owner, repo);
    let sanitized = spec_trim(spec_truncate_with_lines(st.buffer, 10000));
    if 1 <= sanitized.len() <= 10000 {
        Some(sanitized)
    } else {
        None
    }
}

fn ends_nl(buffer: &Vec<char>) -> (r: bool)
    ensures
        r == spec_ends_nl(buffer@),
{
    buffer.len() > 0 && buffer[buffer.len() - 1] == '\n'
}

fn push_ensure_nl(buffer: &mut Vec<char>)
    ensures
        final(buffer)@ == spec_ensure_nl(old(buffer)@),
{
    if !ends_nl(buffer) {
        buffer.push('\n');
    }
}

fn counter_get(counters: &Vec<Option<u64>>, level: usize) -> (r: Option<u64>)
    ensures
        r == spec_counter_get(counters@, level as int),
{
    if level < counters.len() {
        counters[level]
    } else {
        None
    }
}

fn counter_set(counters: &mut Vec<Option<u64>>, level: usize, v: u64)
    ensures
        final(counters)@ == spec_counter_set(old(counters)@, level as int, v),
{
    if level < counters.len() {
        counters.set(level, Some(v));
    } else {
        let ghost cs0 = counters@;
        while counters.len() < level
            invariant
                cs0.len() <= counters@.len() <= level,
                counters@ == cs0 + Seq::new((counters@.len() - cs0.len()) as nat, |i: int| None::<u64>),
            decreases level - counters.len(),
        {
            counters.push(None);
            proof {
                assert(counters@ =~= cs0 + Seq::new(
                    (counters@.len() - cs0.len()) as nat,
                    |i: int| None::<u64>,
                ));
            }
        }
        counters.push(Some(v));
        proof {
            assert(counters@ =~= cs0 + Seq::new((level - cs0.len()) as nat, |i: int| None::<u64>)
                + seq![Some(v)]);
        }
    }
}

fn counter_clear(counters: &mut Vec<Option<u64>>, level: usize)
    ensures
        final(counters)@ == spec_counter_clear(old(counters)@, level as int),
{
    if level < counters.len() {
        counters.set(level, None);
    }
}

fn push_indent(buffer: &mut Vec<char>, level: usize)
    ensures
        final(buffer)@ == old(buffer)@ + spec_indent(level as int),
{
    let mut k: usize = 0;
    while k < level
        invariant
            k <= level,
            buffer@ == old(buffer)@ + spec_indent(k as int),
        decreases level - k,
    {
        buffer.push(' ');
        buffer.push(' ');
        buffer.push(' ');
        buffer.push(' ');
        proof {
            assert(buffer@ =~= old(buffer)@ + spec_indent(k + 1));
        }
        k = k + 1;
    }
    proof {
        assert(buffer@ =~= old(buffer)@ + spec_indent(level as int));
    }
}

/// Applies one event to the formatter's running state.
fn apply_event(
    buffer: &mut Vec<char>,
    counters: &mut Vec<Option<u64>>,
    level: &mut usize,
    ev: &MdEvent,
    owner: &Vec<char>,
    repo: &Vec<char>,
)
    requires
        *old(level) < usize::MAX,
    ensures
        ({
            let st = spec_apply_event(
                FmtState {
                    buffer: old(buffer)@,
                    counters: old(counters)@,
                    level: *old(level) as int,
                },
                ev@,
                owner@,
                repo@,
            );
            final(buffer)@ == st.buffer && final(counters)@ == st.counters && *final(level) as int
                == st.level
        }),
{
    match ev {
        MdEvent::BlockStart => {
            push_ensure_nl(buffer);
        },
        MdEvent::BlockEnd => {
            push_ensure_nl(buffer);
        },
        MdEvent::TitleText(t) => {
            let tc = chars_of(t.as_str());
            extend_chars(buffer, &tc);
        },
        MdEvent::ListStart(first) => {
            match first {
                Some(idx) => {
                    counter_set(counters, *level, *idx);
                },
                None => {},
            }
            push_ensure_nl(buffer);
        },
        MdEvent::ItemStart => {
            push_indent(buffer, *level);
            match counter_get(counters, *level) {
                Some(idx) => {
                    let mut digits: Vec<char> = Vec::new();
                    push_decimal(&mut digits, idx);
                    extend_chars(buffer, &digits);
                    extend_str(buffer, ". ");
                    let next = if idx == 0xFFFF_FFFF_FFFF_FFFFu64 {
                        0
                    } else {
                        idx + 1
                    };
                    counter_set(counters, *level, next);
                    proof {
                        assert(Seq::<char>::empty() + spec_decimal(idx as int) =~= spec_decimal(
                            idx as int,
                        ));
                    }
                },
                None => {
                    extend_str(buffer, "- ");
                },
            }
            *level = *level + 1;
        },
        MdEvent::ListEnd => {
            if *level >= 1 && ends_nl(buffer) {
                let ghost b0 = buffer@;
                let _ = buffer.pop();
                proof {
                    assert(buffer@ =~= b0.drop_last());
                }
            }
            counter_clear(counters, *level);
        },
        MdEvent::ItemEnd => {
            let n = buffer.len();
            if n >= 2 && buffer[n - 2] == '-' && buffer[n - 1] == ' ' {
                let ghost b0 = buffer@;
                let _ = buffer.pop();
                let _ = buffer.pop();
                proof {
                    assert(buffer@ =~= b0.take(b0.len() - 2));
                }
            } else {
                buffer.push('\n');
            }
            if *level > 0 {
                *level = *level - 1;
            }
        },
        MdEvent::Text(t) => {
            let tc = chars_of(t.as_str());
            let rewritten = rewrite_github_urls(&tc, owner, repo);
            let cleaned = remove_sha1_chars(&rewritten);
            extend_chars(buffer, &cleaned);
        },
        MdEvent::Code(t) => {
            let tc = chars_of(t.as_str());
            let mut untabbed: Vec<char> = Vec::new();
            let mut i: usize = 0;
            while i < tc.len()
                invariant
                    i <= tc.len(),
                    untabbed@ == spec_untab(tc@.take(i as int)),
                decreases tc.len() - i,
            {
                let c = tc[i];
                untabbed.push(
                    if c == '\t' {
                        ' '
                    } else {
                        c
                    },
                );
                proof {
                    assert(untabbed@ =~= spec_untab(tc@.take(i + 1)));
                }
                i = i + 1;
            }
            proof {
                assert(tc@.take(tc@.len() as int) =~= tc@);
            }
            extend_chars(buffer, &untabbed);
        },
        MdEvent::Html(t) => {
            let tc = chars_of(t.as_str());
            extend_chars(buffer, &tc);
        },
        MdEvent::LineBreak => {
            buffer.push('\n');
        },
        MdEvent::Nothing => {},
    }
}

/// How validating a release-notes text can fail.
#[derive(Clone, Copy, PartialEq, Eq, Structural, Debug)]
pub enum ReleaseNotesError {
    /// Nothing is left after sanitizing.
    Empty,
    /// The sanitized text is over the length ceiling.
    TooLong,
}

/// A validated release-notes text: non-empty, at most ten thousand
/// characters, truncated to whole lines and trimmed.
#[derive(Clone, PartialEq, Eq, Debug)]
pub struct ReleaseNotes {
    value: String,
}

/// The sanitized form of a candidate text: truncated to whole lines within
/// the length ceiling, then trimmed.
pub open spec fn spec_sanitize(s: Seq<char>) -> Seq<char> {
    spec_trim(spec_truncate_with_lines(s, 10000))
}

impl View for ReleaseNotes {
    type V = Seq<char>;

    closed spec fn view(&self) -> Seq<char> {
        self.value@
    }
}

impl ReleaseNotes {
    /// The text is sanitized and between one and ten thousand characters.
    pub open spec fn wf(&self) -> bool {
        self@ == spec_sanitize(self@) && 1 <= self@.len() <= 10000
    }

    /// Sanitizes and validates a candidate text: empty input is rejected,
    /// and anything over the length ceiling was already truncated away.
    pub fn try_new(input: String) -> (r: Result<ReleaseNotes, ReleaseNotesError>)
        ensures
            match r {
                Ok(notes) => notes@ == spec_sanitize(input@) && 1 <= notes@.len() <= 10000,
                Err(ReleaseNotesError::Empty) => spec_sanitize(input@).len() == 0,
                Err(ReleaseNotesError::TooLong) => spec_sanitize(input@).len() > 10000,
            },
    {
        let truncated = truncate_with_lines::<10000>(input.as_str());
        let tc = chars_of(truncated.as_str());
        let trimmed = trim_chars(&tc);
        if trimmed.len() == 0 {
            Err(ReleaseNotesError::Empty)
        } else if trimmed.len() > 10000 {
            Err(ReleaseNotesError::TooLong)
        } else {
            Ok(ReleaseNotes { value: string_from_chars(&trimmed) })
        }
    }

    /// The validated text.
    pub fn as_str(&self) -> (r: &str)
        ensures
            r@ == self@,
    {
        self.value.as_str()
    }

    /// Formats a release-notes body: markdown flattened, links collapsed,
    /// digests removed, the result truncated to whole lines and trimmed —
    /// or nothing where no text is left.
    pub fn format(body: &str, owner: &str, repo: &str) -> (r: Option<ReleaseNotes>)
        ensures
            match spec_format_events(spec_md_events(body@), owner@, repo@) {
                Some(text) => r is Some && r->0@ == text,
                None => r is None,
            },
    {
        let events = md_events(body);
        let owner_chars = chars_of(owner);
        let repo_chars = chars_of(repo);
        let mut buffer: Vec<char> = Vec::new();
        let mut counters: Vec<Option<u64>> = Vec::new();
        let mut level: usize = 0;
        let ghost evs = spec_events_view(events@);
        let mut k: usize = 0;
        proof {
            assert(evs.len() == events@.len());
        }
        while k < events.len()
            invariant
                k <= events.len(),
                level <= k,
                evs == spec_events_view(events@),
                evs == spec_md_events(body@),
                owner_chars@ == owner@,
                repo_chars@ == repo@,
                spec_fold_events(evs, 0, spec_initial_state(), owner@, repo@) == spec_fold_events(
                    evs,
                    k as int,
                    FmtState { buffer: buffer@, counters: counters@, level: level as int },
                    owner@,
                    repo@,
                ),
            decreases events.len() - k,
        {
            proof {
                assert(evs[k as int] == events@[k as int]@);
            }
            apply_event(&mut buffer, &mut counters, &mut level, &events[k], &owner_chars, &repo_chars);
            k = k + 1;
        }
        let text = string_from_chars(&buffer);
        match Self::try_new(text) {
            Ok(notes) => Some(notes),
            Err(_) => None,
        }
    }
}

} // verus!
