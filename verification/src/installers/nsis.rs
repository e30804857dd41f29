//! The encoded-string resolver: decodes the proprietary variable-length
//! character encoding of the scriptable installer system's string tables,
//! with embedded variable references, shell-folder references and language
//! references. The format reuses a narrow byte range for structural
//! escapes, so decoding is character-at-a-time with one character of
//! lookahead; resolution never aborts on an unresolvable token — it
//! degrades to an empty insertion.

use vstd::prelude::*;
use crate::installers::reader::spec_le16;
use crate::strutil::{
    extend_chars, extend_str, push_decimal, spec_decimal, spec_digit, string_from_chars,
};

verus! {

/// The detected format version; the third generation moved the special
/// codes from the top of the byte range to the bottom.
#[derive(Clone, Copy, PartialEq, Eq, Structural, Debug)]
pub struct NsisVersion {
    pub major: u8,
    pub minor: u8,
}

impl NsisVersion {
    /// The third-generation version, the default assumption.
    pub fn v3() -> (r: NsisVersion)
        ensures
            r == (NsisVersion { major: 3, minor: 0 }),
    {
        NsisVersion { major: 3, minor: 0 }
    }

    /// The second-generation version.
    pub fn v2() -> (r: NsisVersion)
        ensures
            r == (NsisVersion { major: 2, minor: 0 }),
    {
        NsisVersion { major: 2, minor: 0 }
    }

    pub open spec fn spec_is_v3(&self) -> bool {
        self.major >= 3
    }

    pub fn is_v3(&self) -> (r: bool)
        ensures
            r == self.spec_is_v3(),
    {
        self.major >= 3
    }
}

/// The "language" special code.
pub open spec fn spec_lang_code(v: NsisVersion) -> u8 {
    if v.spec_is_v3() {
        1
    } else {
        255
    }
}

/// The "shell folder" special code.
pub open spec fn spec_shell_code(v: NsisVersion) -> u8 {
    if v.spec_is_v3() {
        2
    } else {
        254
    }
}

/// The "variable" special code.
pub open spec fn spec_var_code(v: NsisVersion) -> u8 {
    if v.spec_is_v3() {
        3
    } else {
        253
    }
}

/// The "skip" code: the following character is a literal, letting the
/// format escape its own special bytes.
pub open spec fn spec_skip_code(v: NsisVersion) -> u8 {
    if v.spec_is_v3() {
        4
    } else {
        252
    }
}

/// The version's special codes occupy a narrow byte range: the bottom four
/// values in the third generation, the top four before it.
pub open spec fn spec_is_code(c: u8, v: NsisVersion) -> bool {
    if v.spec_is_v3() {
        1 <= c <= 4
    } else {
        c >= 252
    }
}

fn is_code(c: u8, v: &NsisVersion) -> (r: bool)
    ensures
        r == spec_is_code(c, *v),
{
    if v.is_v3() {
        1 <= c && c <= 4
    } else {
        c >= 252
    }
}

/// The index packed into a special character: the low seven bits of each
/// byte combined, low byte as bits 0 to 6 and high byte as bits 7 to 13.
pub open spec fn spec_decode_number(c: u16) -> u16 {
    (c & 0x7F) | (((c >> 8) & 0x7F) << 7)
}

/// Unpacks the 7-bit-per-byte index scheme of a special character.
pub fn decode_number_from_char(c: u16) -> (r: u16)
    ensures
        r == spec_decode_number(c),
{
    (c & 0x7F) | (((c >> 8) & 0x7F) << 7)
}

/// The predefined shell-folder constant a shell reference's low index byte
/// names, or nothing where the index is not a known one. A shell
/// reference packs two index bytes; this resolver reads the constant
/// named by the low byte and deliberately does not model the
/// string-table look-aside some script generations attach to the high
/// byte — such a reference degrades to an empty insertion, never an
/// error.
pub open spec fn spec_shell_name(idx: u8) -> Seq<char> {
    if idx == 0x00 {
        "$DESKTOP"@
    } else if idx == 0x02 {
        "$SMPROGRAMS"@
    } else if idx == 0x05 {
        "$DOCUMENTS"@
    } else if idx == 0x06 {
        "$FAVORITES"@
    } else if idx == 0x07 {
        "$SMSTARTUP"@
    } else if idx == 0x08 {
        "$RECENT"@
    } else if idx == 0x09 {
        "$SENDTO"@
    } else if idx == 0x0B {
        "$STARTMENU"@
    } else if idx == 0x0D {
        "$MUSIC"@
    } else if idx == 0x0E {
        "$VIDEOS"@
    } else if idx == 0x14 {
        "$FONTS"@
    } else if idx == 0x15 {
        "$TEMPLATES"@
    } else if idx == 0x1A {
        "$APPDATA"@
    } else if idx == 0x1C {
        "$LOCALAPPDATA"@
    } else if idx == 0x23 {
        "$COMMONAPPDATA"@
    } else if idx == 0x24 {
        "$WINDIR"@
    } else if idx == 0x25 {
        "$SYSDIR"@
    } else if idx == 0x26 {
        "$PROGRAMFILES"@
    } else if idx == 0x27 {
        "$PICTURES"@
    } else if idx == 0x28 {
        "$PROFILE"@
    } else if idx == 0x2B {
        "$COMMONFILES"@
    } else if idx == 0x2E {
        "$COMMONDOCUMENTS"@
    } else {
        Seq::empty()
    }
}

fn shell_name(idx: u8) -> (r: &'static str)
    ensures
        r@ == spec_shell_name(idx),
{
    if idx == 0x00 {
        "$DESKTOP"
    } else if idx == 0x02 {
        "$SMPROGRAMS"
    } else if idx == 0x05 {
        "$DOCUMENTS"
    } else if idx == 0x06 {
        "$FAVORITES"
    } else if idx == 0x07 {
        "$SMSTARTUP"
    } else if idx == 0x08 {
        "$RECENT"
    } else if idx == 0x09 {
        "$SENDTO"
    } else if idx == 0x0B {
        "$STARTMENU"
    } else if idx == 0x0D {
        "$MUSIC"
    } else if idx == 0x0E {
        "$VIDEOS"
    } else if idx == 0x14 {
        "$FONTS"
    } else if idx == 0x15 {
        "$TEMPLATES"
    } else if idx == 0x1A {
        "$APPDATA"
    } else if idx == 0x1C {
        "$LOCALAPPDATA"
    } else if idx == 0x23 {
        "$COMMONAPPDATA"
    } else if idx == 0x24 {
        "$WINDIR"
    } else if idx == 0x25 {
        "$SYSDIR"
    } else if idx == 0x26 {
        "$PROGRAMFILES"
    } else if idx == 0x27 {
        "$PICTURES"
    } else if idx == 0x28 {
        "$PROFILE"
    } else if idx == 0x2B {
        "$COMMONFILES"
    } else if idx == 0x2E {
        "$COMMONDOCUMENTS"
    } else {
        proof {
            reveal_strlit("");
            assert(""@ =~= Seq::<char>::empty());
        }
        ""
    }
}

/// The textual name of a numbered variable: the ten numeric registers, the
/// ten auxiliary registers, the named built-ins, and a stable placeholder
/// for user-defined variables beyond them.
pub open spec fn spec_var_text(index: u16) -> Seq<char> {
    if index < 10 {
        seq!['$', spec_digit(index as int)]
    } else if index < 20 {
        seq!['$', 'R', spec_digit(index - 10)]
    } else if index == 20 {
        "$CMDLINE"@
    } else if index == 21 {
        "$INSTDIR"@
    } else if index == 22 {
        "$OUTDIR"@
    } else if index == 23 {
        "$EXEDIR"@
    } else if index == 24 {
        "$LANGUAGE"@
    } else if index == 25 {
        "$TEMP"@
    } else if index == 26 {
        "$PLUGINSDIR"@
    } else if index == 27 {
        "$EXEPATH"@
    } else if index == 28 {
        "$EXEFILE"@
    } else if index == 29 {
        "$HWNDPARENT"@
    } else if index == 30 {
        "$_CLICK"@
    } else {
        "$__"@ + spec_decimal(index - 31) + "__"@
    }
}

fn var_text(index: u16) -> (r: Vec<char>)
    ensures
        r@ == spec_var_text(index),
{
    let mut out: Vec<char> = Vec::new();
    if index < 10 {
        out.push('$');
        out.push(crate::strutil::digit_char(index as u64));
        proof {
            assert(out@ =~= spec_var_text(index));
        }
    } else if index < 20 {
        out.push('$');
        out.push('R');
        out.push(crate::strutil::digit_char((index - 10) as u64));
        proof {
            assert(out@ =~= spec_var_text(index));
        }
    } else if index <= 30 {
        let name: &'static str = if index == 20 {
            "$CMDLINE"
        } else if index == 21 {
            "$INSTDIR"
        } else if index == 22 {
            "$OUTDIR"
        } else if index == 23 {
            "$EXEDIR"
        } else if index == 24 {
            "$LANGUAGE"
        } else if index == 25 {
            "$TEMP"
        } else if index == 26 {
            "$PLUGINSDIR"
        } else if index == 27 {
            "$EXEPATH"
        } else if index == 28 {
            "$EXEFILE"
        } else if index == 29 {
            "$HWNDPARENT"
        } else {
            "$_CLICK"
        };
        extend_str(&mut out, name);
        proof {
            assert(Seq::<char>::empty() + name@ =~= name@);
        }
    } else {
        extend_str(&mut out, "$__");
        push_decimal(&mut out, (index - 31) as u64);
        extend_str(&mut out, "__");
        proof {
            assert(Seq::<char>::empty() + "$__"@ =~= "$__"@);
            assert(out@ =~= spec_var_text(index));
        }
    }
    out
}

/// The literal insertion of a decoded character unit: the character with
/// that code point, or nothing for the unpaired-surrogate range.
pub open spec fn spec_char_seq(c: u16) -> Seq<char> {
    if c < 0xD800 || c >= 0xE000 {
        seq![c as char]
    } else {
        Seq::empty()
    }
}

/// Relies on `char::from_u32`: the character with the given code point,
/// and `None` exactly on the surrogate range and past the last code point.
#[verifier::external_body]
fn char_from_u32(v: u32) -> (r: Option<char>)
    ensures
        r is Some <==> (v < 0xD800 || (0xE000 <= v < 0x11_0000)),
        r is Some ==> r->0 == v as char,
{
    char::from_u32(v)
}

fn push_char_unit(buf: &mut Vec<char>, c: u16)
    ensures
        final(buf)@ == old(buf)@ + spec_char_seq(c),
{
    match char_from_u32(c as u32) {
        Some(ch) => {
            buf.push(ch);
            proof {
                assert(old(buf)@.push(ch) =~= old(buf)@ + spec_char_seq(c));
            }
        },
        None => {
            proof {
                assert(old(buf)@ + spec_char_seq(c) =~= old(buf)@);
            }
        },
    }
}

/// Reads one character unit at `pos`: two bytes little-endian when the
/// table is 16-bit text, one zero-extended byte otherwise; and where
/// reading resumes.
pub open spec fn spec_read_unit(block: Seq<u8>, pos: int, unicode: bool) -> Option<(u16, int)> {
    if unicode {
        if 0 <= pos && pos + 2 <= block.len() {
            Some((spec_le16(block[pos], block[pos + 1]), pos + 2))
        } else {
            None
        }
    } else {
        if 0 <= pos && pos + 1 <= block.len() {
            Some((block[pos] as u16, pos + 1))
        } else {
            None
        }
    }
}

fn read_unit(block: &[u8], pos: usize, unicode: bool) -> (r: Option<(u16, usize)>)
    ensures
        match r {
            Some((c, p)) => spec_read_unit(block@, pos as int, unicode) == Some((c, p as int))
                && pos < p <= block@.len(),
            None => spec_read_unit(block@, pos as int, unicode) is None,
        },
{
    if unicode {
        if pos < block.len() && 2 <= block.len() - pos {
            Some((block[pos] as u16 + block[pos + 1] as u16 * 0x100, pos + 2))
        } else {
            None
        }
    } else {
        if pos < block.len() {
            Some((block[pos] as u16, pos + 1))
        } else {
            None
        }
    }
}

/// The resolved text from `pos` to the zero terminator: literal characters
/// pass through; a special code consumes its lookahead and inserts the
/// named substitution, or nothing where the reference is not a known one;
/// the skip code makes its follower literal. `None` only on an early end
/// of the table.
pub open spec fn spec_resolve_from(
    block: Seq<u8>,
    pos: int,
    unicode: bool,
    version: NsisVersion,
) -> Option<Seq<char>>
    decreases block.len() + 2 - pos,
{
    if pos < 0 || pos > block.len() {
        None
    } else {
        match spec_read_unit(block, pos, unicode) {
            None => None,
            Some((current, p1)) => {
                if current == 0 {
                    Some(Seq::empty())
                } else if spec_is_code((current & 0xFF) as u8, version) {
                    match spec_read_unit(block, p1, unicode) {
                        None => None,
                        Some((next, p2)) => {
                            if next == 0 {
                                Some(Seq::empty())
                            } else if current != spec_skip_code(version) as u16 {
                                let assembled = if unicode {
                                    Some((next, p2))
                                } else {
                                    match spec_read_unit(block, p2, unicode) {
                                        None => None,
                                        Some((third, p3)) => Some(
                                            ((next & 0xFF) | ((third & 0xFF) << 8), p3),
                                        ),
                                    }
                                };
                                match assembled {
                                    None => None,
                                    Some((special, p3)) => {
                                        let insertion = if current == spec_shell_code(version) as u16 {
                                            spec_shell_name((special & 0xFF) as u8)
                                        } else if current == spec_var_code(version) as u16 {
                                            spec_var_text(spec_decode_number(special))
                                        } else {
                                            Seq::empty()
                                        };
                                        match spec_resolve_from(block, p3, unicode, version) {
                                            None => None,
                                            Some(rest) => Some(insertion + rest),
                                        }
                                    },
                                }
                            } else {
                                match spec_resolve_from(block, p2, unicode, version) {
                                    None => None,
                                    Some(rest) => Some(spec_char_seq(next) + rest),
                                }
                            }
                        },
                    }
                } else {
                    match spec_resolve_from(block, p1, unicode, version) {
                        None => None,
                        Some(rest) => Some(spec_char_seq(current) + rest),
                    }
                }
            },
        }
    }
}

/// The resolved text of the entry at a relative offset of a string table:
/// the table's first 16-bit word of exactly zero signals 16-bit text, and
/// the offset is scaled by the character width. `None` where the table is
/// too short, the offset lies outside it, or the entry is unterminated.
pub open spec fn spec_nsis_string(
    block: Seq<u8>,
    relative_offset: u32,
    version: NsisVersion,
) -> Option<Seq<char>> {
    if block.len() < 2 {
        None
    } else {
        let unicode = spec_le16(block[0], block[1]) == 0;
        let offset: int = if unicode {
            relative_offset * 2
        } else {
            relative_offset as int
        };
        if offset > block.len() {
            None
        } else {
            spec_resolve_from(block, offset, unicode, version)
        }
    }
}

/// Resolves one encoded string into `buf`, one character at a time with
/// one character of lookahead. Returns false only where the table is
/// malformed; unresolvable references degrade to empty insertions instead.
pub fn resolve_nsis_string(
    buf: &mut Vec<char>,
    strings_block: &[u8],
    relative_offset: u32,
    nsis_version: NsisVersion,
) -> (r: bool)
    ensures
        match spec_nsis_string(strings_block@, relative_offset, nsis_version) {
            Some(text) => r && final(buf)@ == old(buf)@ + text,
            None => !r,
        },
{
    if strings_block.len() < 2 {
        return false;
    }
    let unicode = strings_block[0] as u16 + strings_block[1] as u16 * 0x100 == 0;
    let scale: u64 = if unicode {
        2
    } else {
        1
    };
    let need: u64 = relative_offset as u64 * scale;
    if need > strings_block.len() as u64 {
        return false;
    }
    let offset: usize = need as usize;
    let ghost pos0 = offset as int;
    let mut pos: usize = offset;
    let ghost buf0 = old(buf)@;
    proof {
        assert(spec_nsis_string(strings_block@, relative_offset, nsis_version)
            == spec_resolve_from(strings_block@, pos0, unicode, nsis_version));
        assert(buf@.take(buf0.len() as int) =~= buf0);
    }
    loop
        invariant
            pos <= strings_block@.len(),
            buf0 == old(buf)@,
            buf@.len() >= buf0.len(),
            buf@.take(buf0.len() as int) == buf0,
            spec_nsis_string(strings_block@, relative_offset, nsis_version) == spec_resolve_from(
                strings_block@,
                pos0,
                unicode,
                nsis_version,
            ),
            forall|rest: Seq<char>|
                spec_resolve_from(strings_block@, pos as int, unicode, nsis_version) == Some(rest)
                    ==> spec_resolve_from(strings_block@, pos0, unicode, nsis_version) == Some(
                    buf@.skip(buf0.len() as int) + rest,
                ),
            spec_resolve_from(strings_block@, pos as int, unicode, nsis_version) is None
                ==> spec_resolve_from(strings_block@, pos0, unicode, nsis_version) is None,
        decreases strings_block@.len() - pos,
    {
        let ghost p_entry = pos as int;
        let ghost buf_entry = buf@;
        let (current, p1) = match read_unit(strings_block, pos, unicode) {
            Some(x) => x,
            None => {
                return false;
            },
        };
        if current == 0 {
            proof {
                assert(spec_resolve_from(strings_block@, p_entry, unicode, nsis_version) == Some(
                    Seq::<char>::empty(),
                ));
                assert(buf@.skip(buf0.len() as int) + Seq::<char>::empty() =~= buf@.skip(
                    buf0.len() as int,
                ));
                assert(buf@ =~= buf0 + buf@.skip(buf0.len() as int));
            }
            return true;
        }
        let mut insertion: Vec<char> = Vec::new();
        let mut p_next: usize = p1;
        if is_code((current & 0xFF) as u8, &nsis_version) {
            let (next, p2) = match read_unit(strings_block, p1, unicode) {
                Some(x) => x,
                None => {
                    return false;
                },
            };
            if next == 0 {
                proof {
                    assert(spec_resolve_from(strings_block@, p_entry, unicode, nsis_version)
                        == Some(Seq::<char>::empty()));
                    assert(buf@.skip(buf0.len() as int) + Seq::<char>::empty() =~= buf@.skip(
                        buf0.len() as int,
                    ));
                    assert(buf@ =~= buf0 + buf@.skip(buf0.len() as int));
                }
                return true;
            }
            if current != skip_code(&nsis_version) as u16 {
                let (special, p3) = if unicode {
                    (next, p2)
                } else {
                    let (third, p3) = match read_unit(strings_block, p2, unicode) {
                        Some(x) => x,
                        None => {
                            return false;
                        },
                    };
                    ((next & 0xFF) | ((third & 0xFF) << 8), p3)
                };
                if current == shell_code(&nsis_version) as u16 {
                    let name = shell_name((special & 0xFF) as u8);
                    extend_str(&mut insertion, name);
                    proof {
                        assert(insertion@ =~= spec_shell_name((special & 0xFF) as u8));
                    }
                } else if current == var_code(&nsis_version) as u16 {
                    let index = decode_number_from_char(special);
                    let text = var_text(index);
                    extend_chars(&mut insertion, &text);
                    proof {
                        assert(insertion@ =~= spec_var_text(spec_decode_number(special)));
                    }
                }
                p_next = p3;
            } else {
                push_char_unit(&mut insertion, next);
                proof {
                    assert(insertion@ =~= spec_char_seq(next));
                }
                p_next = p2;
            }
        } else {
            push_char_unit(&mut insertion, current);
            proof {
                assert(insertion@ =~= spec_char_seq(current));
            }
            p_next = p1;
        }
        extend_chars(buf, &insertion);
        proof {
            assert(spec_resolve_from(strings_block@, p_entry, unicode, nsis_version) == (
            match spec_resolve_from(strings_block@, p_next as int, unicode, nsis_version) {
                Some(rest) => Some(insertion@ + rest),
                None => None::<Seq<char>>,
            }));
            assert(buf@.take(buf0.len() as int) =~= buf0);
            if spec_resolve_from(strings_block@, p_next as int, unicode, nsis_version) is Some {
                let rest = spec_resolve_from(
                    strings_block@,
                    p_next as int,
                    unicode,
                    nsis_version,
                )->0;
                assert(buf_entry.skip(buf0.len() as int) + (insertion@ + rest) =~= buf@.skip(
                    buf0.len() as int,
                ) + rest);
            }
        }
        pos = p_next;
    }
}

fn skip_code(v: &NsisVersion) -> (r: u8)
    ensures
        r == spec_skip_code(*v),
{
    if v.is_v3() {
        4
    } else {
        252
    }
}

fn shell_code(v: &NsisVersion) -> (r: u8)
    ensures
        r == spec_shell_code(*v),
{
    if v.is_v3() {
        2
    } else {
        254
    }
}

fn var_code(v: &NsisVersion) -> (r: u8)
    ensures
        r == spec_var_code(*v),
{
    if v.is_v3() {
        3
    } else {
        253
    }
}

/// Resolves the encoded string at a relative offset of a string table, or
/// `None` where the table is malformed.
pub fn nsis_string(strings_block: &[u8], relative_offset: u32, nsis_version: NsisVersion) -> (r:
    Option<String>)
    ensures
        match r {
            Some(s) => spec_nsis_string(strings_block@, relative_offset, nsis_version) == Some(
                s@,
            ),
            None => spec_nsis_string(strings_block@, relative_offset, nsis_version) is None,
        },
{
    let mut buf: Vec<char> = Vec::new();
    if resolve_nsis_string(&mut buf, strings_block, relative_offset, nsis_version) {
        proof {
            assert(Seq::<char>::empty() + spec_nsis_string(
                strings_block@,
                relative_offset,
                nsis_version,
            )->0 =~= spec_nsis_string(strings_block@, relative_offset, nsis_version)->0);
        }
        Some(string_from_chars(&buf))
    } else {
        None
    }
}

} // verus!
