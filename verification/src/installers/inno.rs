//! The Inno-class setup container: the parse pipeline from host-file bytes
//! to normalized installer records, and the metadata normalization helpers
//! it rests on. The offset-table locator lives in `inno_loader`, the
//! version registry in `inno_version`, and the record decoder in
//! `inno_header`.

use vstd::prelude::*;
use crate::installers::block::spec_deblock;
use crate::installers::codec::{spec_inflate, spec_lzma1};
use crate::installers::compression::{
    resolve_legacy, resolve_modern, spec_resolve_legacy, spec_resolve_modern, Compression,
};
use crate::installers::crc32::{crc32_of, spec_crc32};
use crate::installers::inno_header::{
    build_header, decode_record, decode_records, header_schema, language_schema,
    languages_from_records, section_schema, spec_build_header, spec_decode_record,
    spec_decode_records, spec_has, spec_header_schema, spec_language_schema,
    spec_languages_from, spec_section_schema, InnoHeader, InnoHeaderS, LanguageEntry, Section,
};
use crate::installers::inno_loader::{
    locate_loader, spec_locate_loader, LoaderError, LoaderErrorS, PeResource, SetupLoader,
};
use crate::installers::inno_version::{
    from_version_bytes, max_supported_version, spec_latin1, spec_lookup_version,
    spec_max_supported_version, spec_triple_lt, spec_utf8_lossy, spec_version_lt,
    utf8_lossy_string, InnoVersion, KnownVersion,
};
use crate::installers::msi::{language_tag, spec_lang_tag};
use crate::installers::reader::{bytes_range, spec_le32, ByteReader};
use crate::manifest::{
    AppsAndFeaturesEntry, Architecture, CustomSwitch, ElevationRequirement, InstallationMetadata,
    Installer, InstallerSwitches, InstallerType, InstallerV, Scope, spec_installers_view,
};
use crate::strutil::{
    chars_of, find_chars, match_at, push_str, spec_find, string_from_chars,
};

verus! {

/// The product code of an application identifier: one doubled opening brace
/// removed, then `_is1` appended — the container's uninstall-registry-key
/// convention.
pub open spec fn spec_product_code(app_id: Seq<char>) -> Seq<char> {
    let trimmed = if app_id.len() >= 2 && app_id[0] == '{' && app_id[1] == '{' {
        app_id.skip(1)
    } else {
        app_id
    };
    trimmed + "_is1"@
}

/// Appends the uninstall-registry suffix to an application identifier and
/// collapses a doubled opening brace, which the setup script language uses
/// to escape a literal `{`.
pub fn to_product_code(app_id: String) -> (r: String)
    ensures
        r@ == spec_product_code(app_id@),
{
    let mut out = String::new();
    let chars = chars_of(app_id.as_str());
    let start: usize = if chars.len() >= 2 && chars[0] == '{' && chars[1] == '{' {
        1
    } else {
        0
    };
    let mut i: usize = start;
    while i < chars.len()
        invariant
            start <= i <= chars.len(),
            chars@ == app_id@,
            out@ == app_id@.subrange(start as int, i as int),
        decreases chars@.len() - i,
    {
        crate::strutil::push_char(&mut out, chars[i]);
        proof {
            assert(out@ =~= app_id@.subrange(start as int, i + 1));
        }
        i = i + 1;
    }
    proof {
        assert(out@ =~= app_id@.skip(start as int));
        if start == 0 {
            assert(app_id@.skip(0) =~= app_id@);
        }
    }
    push_str(&mut out, "_is1");
    out
}

/// The symbolic-placeholder substitution table: each container token paired
/// with the portable relative path it stands for. Earlier rows take
/// precedence.
pub open spec fn spec_dir_table() -> Seq<(Seq<char>, Seq<char>)> {
    seq![
        ("{win}"@, "%WinDir%"@),
        ("{sys}"@, "%SystemRoot%"@),
        ("{sysnative}"@, "%SystemRoot%"@),
        ("{commonpf}"@, "%ProgramFiles%"@),
        ("{commonpf32}"@, "%ProgramFiles(x86)%"@),
        ("{commonpf64}"@, "%ProgramFiles%"@),
        ("{commoncf}"@, "%CommonProgramFiles%"@),
        ("{commoncf32}"@, "%CommonProgramFiles(x86)%"@),
        ("{commoncf64}"@, "%CommonProgramFiles%"@),
        ("{pf}"@, "%ProgramFiles%"@),
        ("{pf32}"@, "%ProgramFiles(x86)%"@),
        ("{pf64}"@, "%ProgramFiles%"@),
        ("{cf}"@, "%CommonProgramFiles%"@),
        ("{cf32}"@, "%CommonProgramFiles(x86)%"@),
        ("{cf64}"@, "%CommonProgramFiles%"@),
        ("{autopf}"@, "%ProgramFiles%"@),
        ("{autopf32}"@, "%ProgramFiles(x86)%"@),
        ("{autopf64}"@, "%ProgramFiles%"@),
        ("{autocf}"@, "%CommonProgramFiles%"@),
        ("{autocf32}"@, "%CommonProgramFiles(x86)%"@),
        ("{autocf64}"@, "%CommonProgramFiles%"@),
        ("{autoappdata}"@, "%AppData%"@),
        ("{localappdata}"@, "%LocalAppData%"@),
        ("{userappdata}"@, "%AppData%"@),
        ("{commonappdata}"@, "%ProgramData%"@),
        ("{userpf}"@, "%LocalAppData%\\Programs"@),
        ("{usercf}"@, "%LocalAppData%\\Programs\\Common"@),
    ]
}

/// The install directory with the first matching placeholder token —
/// searching the table in order — rewritten at its first occurrence; a
/// directory without any known token passes through unchanged.
pub open spec fn spec_relative_install_dir_from(s: Seq<char>, k: int) -> Seq<char>
    decreases spec_dir_table().len() - k,
{
    if k < 0 || k >= spec_dir_table().len() {
        s
    } else {
        match spec_find(s, spec_dir_table()[k].0) {
            Some(i) => s.subrange(0, i) + spec_dir_table()[k].1 + s.skip(
                i + spec_dir_table()[k].0.len(),
            ),
            None => spec_relative_install_dir_from(s, k + 1),
        }
    }
}

pub open spec fn spec_relative_install_dir(s: Seq<char>) -> Seq<char> {
    spec_relative_install_dir_from(s, 0)
}

fn dir_entry(k: usize) -> (r: (&'static str, &'static str))
    requires
        k < spec_dir_table().len(),
    ensures
        r.0@ == spec_dir_table()[k as int].0,
        r.1@ == spec_dir_table()[k as int].1,
{
    if k == 0 {
        ("{win}", "%WinDir%")
    } else if k == 1 {
        ("{sys}", "%SystemRoot%")
    } else if k == 2 {
        ("{sysnative}", "%SystemRoot%")
    } else if k == 3 {
        ("{commonpf}", "%ProgramFiles%")
    } else if k == 4 {
        ("{commonpf32}", "%ProgramFiles(x86)%")
    } else if k == 5 {
        ("{commonpf64}", "%ProgramFiles%")
    } else if k == 6 {
        ("{commoncf}", "%CommonProgramFiles%")
    } else if k == 7 {
        ("{commoncf32}", "%CommonProgramFiles(x86)%")
    } else if k == 8 {
        ("{commoncf64}", "%CommonProgramFiles%")
    } else if k == 9 {
        ("{pf}", "%ProgramFiles%")
    } else if k == 10 {
        ("{pf32}", "%ProgramFiles(x86)%")
    } else if k == 11 {
        ("{pf64}", "%ProgramFiles%")
    } else if k == 12 {
        ("{cf}", "%CommonProgramFiles%")
    } else if k == 13 {
        ("{cf32}", "%CommonProgramFiles(x86)%")
    } else if k == 14 {
        ("{cf64}", "%CommonProgramFiles%")
    } else if k == 15 {
        ("{autopf}", "%ProgramFiles%")
    } else if k == 16 {
        ("{autopf32}", "%ProgramFiles(x86)%")
    } else if k == 17 {
        ("{autopf64}", "%ProgramFiles%")
    } else if k == 18 {
        ("{autocf}", "%CommonProgramFiles%")
    } else if k == 19 {
        ("{autocf32}", "%CommonProgramFiles(x86)%")
    } else if k == 20 {
        ("{autocf64}", "%CommonProgramFiles%")
    } else if k == 21 {
        ("{autoappdata}", "%AppData%")
    } else if k == 22 {
        ("{localappdata}", "%LocalAppData%")
    } else if k == 23 {
        ("{userappdata}", "%AppData%")
    } else if k == 24 {
        ("{commonappdata}", "%ProgramData%")
    } else if k == 25 {
        ("{userpf}", "%LocalAppData%\\Programs")
    } else {
        ("{usercf}", "%LocalAppData%\\Programs\\Common")
    }
}

/// Rewrites the container's symbolic placeholder tokens in a default
/// install directory to portable relative-path placeholders. Only the first
/// matching token (searching the table in order) is substituted, at its
/// first occurrence in the string.
pub fn to_relative_install_dir(install_dir: String) -> (r: String)
    ensures
        r@ == spec_relative_install_dir(install_dir@),
{
    let chars = chars_of(install_dir.as_str());
    let n: usize = 27;
    proof {
        assert(spec_dir_table().len() == 27);
    }
    let mut k: usize = 0;
    while k < n
        invariant
            k <= n,
            n == spec_dir_table().len(),
            chars@ == install_dir@,
            spec_relative_install_dir(install_dir@) == spec_relative_install_dir_from(
                install_dir@,
                k as int,
            ),
        decreases n - k,
    {
        let (token, replacement) = dir_entry(k);
        let pat = chars_of(token);
        match find_chars(&chars, &pat) {
            Some(i) => {
                let mut out: Vec<char> = Vec::new();
                let mut j: usize = 0;
                proof {
                    crate::strutil::lemma_find_from_props(chars@, pat@, 0);
                }
                while j < i
                    invariant
                        j <= i,
                        i + pat.len() <= chars.len(),
                        chars@ == install_dir@,
                        out@ == install_dir@.subrange(0, j as int),
                    decreases i - j,
                {
                    out.push(chars[j]);
                    proof {
                        assert(out@ =~= install_dir@.subrange(0, j + 1));
                    }
                    j = j + 1;
                }
                let repl = chars_of(replacement);
                crate::strutil::extend_chars(&mut out, &repl);
                let mut m: usize = i + pat.len();
                proof {
                    assert(out@ == install_dir@.subrange(0, i as int) + spec_dir_table()[
                        k as int].1);
                }
                let ghost mid = out@;
                while m < chars.len()
                    invariant
                        i + pat.len() <= m <= chars.len(),
                        chars@ == install_dir@,
                        out@ == mid + install_dir@.subrange(i + pat@.len(), m as int),
                    decreases chars@.len() - m,
                {
                    out.push(chars[m]);
                    proof {
                        assert(out@ =~= mid + install_dir@.subrange(i + pat@.len(), m + 1));
                    }
                    m = m + 1;
                }
                proof {
                    assert(install_dir@.subrange(
                        i + pat@.len(),
                        install_dir@.len() as int,
                    ) =~= install_dir@.skip(i + pat@.len()));
                    assert(out@ =~= install_dir@.subrange(0, i as int) + spec_dir_table()[
                        k as int].1 + install_dir@.skip(i + spec_dir_table()[k as int].0.len()));
                }
                return string_from_chars(&out);
            },
            None => {
            },
        }
        k = k + 1;
    }
    install_dir
}

/// The scope implied by a rewritten install directory: a per-user location
/// means a per-user install; anything else leaves the scope undetermined.
pub open spec fn spec_scope_from_install_dir(s: Seq<char>) -> Option<Scope> {
    if match_at(s, "%AppData%"@, 0) || match_at(s, "%LocalAppData%"@, 0) || match_at(
        s,
        "%Temp%"@,
        0,
    ) {
        Some(Scope::User)
    } else {
        None
    }
}

/// Derives the install scope from a rewritten install directory.
pub fn scope_from_install_dir(install_dir: &String) -> (r: Option<Scope>)
    ensures
        r == spec_scope_from_install_dir(install_dir@),
{
    let chars = chars_of(install_dir.as_str());
    if starts_with_lit(&chars, "%AppData%") || starts_with_lit(&chars, "%LocalAppData%")
        || starts_with_lit(&chars, "%Temp%") {
        Some(Scope::User)
    } else {
        None
    }
}

fn starts_with_lit(chars: &Vec<char>, lit: &str) -> (r: bool)
    ensures
        r == match_at(chars@, lit@, 0),
{
    let pat = chars_of(lit);
    if pat.len() > chars.len() {
        return false;
    }
    crate::strutil::chars_eq_at(chars, &pat, 0)
}

/// How parsing a setup container can fail. Every kind aborts the whole
/// file's analysis; `NotInnoFile` alone tells a dispatcher to try the next
/// candidate format.
#[derive(Clone, PartialEq, Eq, Debug)]
pub enum InnoError {
    /// No valid offset table: the file is not this container format.
    NotInnoFile,
    /// The structural header's version run is missing or unterminated.
    InvalidSetupHeader,
    /// The version is known but newer than the supported maximum.
    UnsupportedVersion(KnownVersion),
    /// The version byte run matches no known version signature.
    UnknownVersion(String),
    /// The offset table's signature is not a known one.
    UnknownLoaderSignature(Vec<u8>),
    /// An accumulated checksum does not equal the declared expected value.
    CrcChecksumMismatch { actual: u32, expected: u32 },
    /// The stream ended before a declared count or size was satisfied.
    TruncatedStream,
    /// Decompression or sub-block verification failed.
    DecodeFailure,
}

/// The mathematical value of a parse failure.
pub enum InnoErrorS {
    NotInnoFile,
    InvalidSetupHeader,
    UnsupportedVersion(KnownVersion),
    UnknownVersion(Seq<char>),
    UnknownLoaderSignature(Seq<u8>),
    CrcChecksumMismatch { actual: u32, expected: u32 },
    TruncatedStream,
    DecodeFailure,
}

impl View for InnoError {
    type V = InnoErrorS;

    open spec fn view(&self) -> InnoErrorS {
        match self {
            InnoError::NotInnoFile => InnoErrorS::NotInnoFile,
            InnoError::InvalidSetupHeader => InnoErrorS::InvalidSetupHeader,
            InnoError::UnsupportedVersion(v) => InnoErrorS::UnsupportedVersion(*v),
            InnoError::UnknownVersion(s) => InnoErrorS::UnknownVersion(s@),
            InnoError::UnknownLoaderSignature(sig) => InnoErrorS::UnknownLoaderSignature(sig@),
            InnoError::CrcChecksumMismatch { actual, expected } => InnoErrorS::CrcChecksumMismatch {
                actual: *actual,
                expected: *expected,
            },
            InnoError::TruncatedStream => InnoErrorS::TruncatedStream,
            InnoError::DecodeFailure => InnoErrorS::DecodeFailure,
        }
    }
}

/// A fully parsed setup container: its normalized installer records — one,
/// or two for a container that supports both install scopes.
#[derive(Debug)]
pub struct Inno {
    pub installers: Vec<Installer>,
}

/// The parse failure a locating failure surfaces as.
pub open spec fn spec_loader_error(e: LoaderErrorS) -> InnoErrorS {
    match e {
        LoaderErrorS::NotInnoFile => InnoErrorS::NotInnoFile,
        LoaderErrorS::UnknownSignature(sig) => InnoErrorS::UnknownLoaderSignature(sig),
        LoaderErrorS::ChecksumMismatch { actual, expected } => InnoErrorS::CrcChecksumMismatch {
            actual,
            expected,
        },
        LoaderErrorS::Truncated => InnoErrorS::TruncatedStream,
    }
}

/// The least position at or after `from` where byte `b` occurs in `s`.
pub open spec fn spec_find_byte(s: Seq<u8>, b: u8, from: int) -> Option<int>
    decreases s.len() + 1 - from,
{
    if from < 0 || from >= s.len() {
        None
    } else if s[from] == b {
        Some(from)
    } else {
        spec_find_byte(s, b, from + 1)
    }
}

fn find_byte(s: &Vec<u8>, b: u8) -> (r: Option<usize>)
    ensures
        match r {
            Some(i) => spec_find_byte(s@, b, 0) == Some(i as int),
            None => spec_find_byte(s@, b, 0) is None,
        },
{
    let mut i: usize = 0;
    while i < s.len()
        invariant
            i <= s.len(),
            spec_find_byte(s@, b, 0) == spec_find_byte(s@, b, i as int),
        decreases s.len() - i,
    {
        if s[i] == b {
            return Some(i);
        }
        i = i + 1;
    }
    None
}

/// The single target architecture implied by an allowed-architectures bit
/// set, picking the widest declared one.
pub open spec fn spec_arch_from_bits(bits: u32) -> Option<Architecture> {
    if bits & 2 != 0 {
        Some(Architecture::X64)
    } else if bits & 4 != 0 {
        Some(Architecture::Arm64)
    } else if bits & 1 != 0 {
        Some(Architecture::X86)
    } else {
        None
    }
}

fn arch_from_bits(bits: u32) -> (r: Option<Architecture>)
    ensures
        r == spec_arch_from_bits(bits),
{
    if bits & 2 != 0 {
        Some(Architecture::X64)
    } else if bits & 4 != 0 {
        Some(Architecture::Arm64)
    } else if bits & 1 != 0 {
        Some(Architecture::X86)
    } else {
        None
    }
}

/// The explicit unsupported-architecture list implied by a disallowed bit
/// set.
pub open spec fn spec_unsupported_from_bits(bits: u32) -> Option<Seq<Architecture>> {
    let s = (if bits & 1 != 0 {
        seq![Architecture::X86]
    } else {
        Seq::empty()
    }) + (if bits & 2 != 0 {
        seq![Architecture::X64]
    } else {
        Seq::empty()
    }) + (if bits & 4 != 0 {
        seq![Architecture::Arm64]
    } else {
        Seq::empty()
    });
    if s.len() == 0 {
        None
    } else {
        Some(s)
    }
}

fn unsupported_from_bits(bits: u32) -> (r: Option<Vec<Architecture>>)
    ensures
        match r {
            Some(v) => spec_unsupported_from_bits(bits) == Some(v@),
            None => spec_unsupported_from_bits(bits) is None,
        },
{
    let mut v: Vec<Architecture> = Vec::new();
    if bits & 1 != 0 {
        v.push(Architecture::X86);
    }
    if bits & 2 != 0 {
        v.push(Architecture::X64);
    }
    if bits & 4 != 0 {
        v.push(Architecture::Arm64);
    }
    if v.len() == 0 {
        proof {
            assert(spec_unsupported_from_bits(bits) is None);
        }
        None
    } else {
        proof {
            assert(spec_unsupported_from_bits(bits) == Some(v@)) by {
                assert(spec_unsupported_from_bits(bits)->0 =~= v@);
            }
        }
        Some(v)
    }
}

/// The elevation requirement implied by the privilege level (1 is power
/// user, 2 is administrator, 3 is lowest) and the override permission set:
/// a container that lets the user override the level imposes none.
pub open spec fn spec_elevation(privileges: u32, overrides: u32) -> Option<ElevationRequirement> {
    if overrides != 0 {
        None
    } else if privileges == 1 || privileges == 2 {
        Some(ElevationRequirement::ElevationRequired)
    } else if privileges == 3 {
        Some(ElevationRequirement::ElevationProhibited)
    } else {
        None
    }
}

fn elevation(privileges: u32, overrides: u32) -> (r: Option<ElevationRequirement>)
    ensures
        r == spec_elevation(privileges, overrides),
{
    if overrides != 0 {
        None
    } else if privileges == 1 || privileges == 2 {
        Some(ElevationRequirement::ElevationRequired)
    } else if privileges == 3 {
        Some(ElevationRequirement::ElevationProhibited)
    } else {
        None
    }
}

/// An empty text field stands for an absent value.
pub open spec fn spec_opt_of(s: Seq<char>) -> Option<Seq<char>> {
    if s.len() > 0 {
        Some(s)
    } else {
        None
    }
}

/// The one apps-and-features entry a header yields, where it names any of
/// the identity fields.
pub open spec fn spec_apps_entry(header: InnoHeaderS) -> Option<
    Seq<crate::manifest::AppsAndFeaturesEntryV>,
> {
    if header.uninstall_name.len() > 0 || header.app_publisher.len() > 0 || header.app_version.len()
        > 0 {
        Some(
            seq![
                crate::manifest::AppsAndFeaturesEntryV {
                    display_name: spec_opt_of(header.uninstall_name),
                    publisher: spec_opt_of(header.app_publisher),
                    display_version: spec_opt_of(header.app_version),
                    product_code: match spec_opt_of(header.app_id) {
                        Some(id) => Some(spec_product_code(id)),
                        None => None,
                    },
                    upgrade_code: None,
                }
            ],
        )
    } else {
        None
    }
}

/// The base installer record a decoded header and language list yield,
/// before any dual-scope splitting.
pub open spec fn spec_base_installer(header: InnoHeaderS, languages: Seq<LanguageEntry>) -> InstallerV {
    let install_dir = match spec_opt_of(header.default_dir_name) {
        Some(d) => Some(spec_relative_install_dir(d)),
        None => None,
    };
    InstallerV {
        locale: if languages.len() > 0 && languages[0].id <= 0xFFFF {
            Some(spec_lang_tag(languages[0].id as u16))
        } else {
            None
        },
        architecture: spec_arch_from_bits(header.architectures_allowed),
        installer_type: Some(InstallerType::Inno),
        scope: match install_dir {
            Some(d) => spec_scope_from_install_dir(d),
            None => None,
        },
        product_code: match spec_opt_of(header.app_id) {
            Some(id) => Some(spec_product_code(id)),
            None => None,
        },
        unsupported_os_architectures: spec_unsupported_from_bits(header.architectures_disallowed),
        apps_and_features_entries: spec_apps_entry(header),
        elevation_requirement: spec_elevation(
            header.privileges_required,
            header.privileges_required_overrides_allowed,
        ),
        installation_metadata: match install_dir {
            Some(d) => Some(
                crate::manifest::InstallationMetadataV { default_install_location: Some(d) },
            ),
            None => None,
        },
        switches: None,
    }
}

/// The installer records a decoded header and language list yield: one,
/// or — where the container lets the user override the privilege level —
/// two, differing only in scope, in switches, and in the per-user record's
/// cleared install-location metadata.
pub open spec fn spec_synthesize(header: InnoHeaderS, languages: Seq<LanguageEntry>) -> Seq<
    InstallerV,
> {
    let base = spec_base_installer(header, languages);
    if header.privileges_required_overrides_allowed == 0 {
        seq![base]
    } else {
        let has_switch = header.privileges_required_overrides_allowed & 1 == 1;
        let machine = InstallerV {
            scope: Some(Scope::Machine),
            switches: if has_switch {
                Some(crate::manifest::InstallerSwitchesV { custom: Some("/ALLUSERS"@) })
            } else {
                None
            },
            ..base
        };
        let user = InstallerV {
            scope: Some(Scope::User),
            switches: if has_switch {
                Some(crate::manifest::InstallerSwitchesV { custom: Some("/CURRENTUSER"@) })
            } else {
                None
            },
            installation_metadata: None,
            ..base
        };
        seq![machine, user]
    }
}

/// Builds the base installer record out of a decoded header and language
/// list.
fn base_installer(header: &InnoHeader, languages: &Vec<LanguageEntry>) -> (r: Installer)
    ensures
        r@ == spec_base_installer(header@, languages@),
{
    let install_dir: Option<String> = if header.default_dir_name.as_str().unicode_len() > 0 {
        Some(to_relative_install_dir(header.default_dir_name.clone()))
    } else {
        None
    };
    let locale: Option<String> = if languages.len() > 0 && languages[0].id <= 0xFFFF {
        Some(language_tag(languages[0].id as u16))
    } else {
        None
    };
    let product_code: Option<String> = if header.app_id.as_str().unicode_len() > 0 {
        Some(to_product_code(header.app_id.clone()))
    } else {
        None
    };
    let apps: Option<Vec<AppsAndFeaturesEntry>> = if header.uninstall_name.as_str().unicode_len()
        > 0 || header.app_publisher.as_str().unicode_len() > 0
        || header.app_version.as_str().unicode_len() > 0 {
        let entry = AppsAndFeaturesEntry {
            display_name: opt_of(&header.uninstall_name),
            publisher: opt_of(&header.app_publisher),
            display_version: opt_of(&header.app_version),
            product_code: if header.app_id.as_str().unicode_len() > 0 {
                Some(to_product_code(header.app_id.clone()))
            } else {
                None
            },
            upgrade_code: None,
        };
        let mut v: Vec<AppsAndFeaturesEntry> = Vec::new();
        v.push(entry);
        Some(v)
    } else {
        None
    };
    let scope: Option<Scope> = match &install_dir {
        Some(d) => scope_from_install_dir(d),
        None => None,
    };
    let metadata: Option<InstallationMetadata> = match install_dir {
        Some(d) => Some(InstallationMetadata { default_install_location: Some(d) }),
        None => None,
    };
    let r = Installer {
        locale,
        architecture: arch_from_bits(header.architectures_allowed),
        installer_type: Some(InstallerType::Inno),
        scope,
        product_code,
        unsupported_os_architectures: unsupported_from_bits(header.architectures_disallowed),
        apps_and_features_entries: apps,
        elevation_requirement: elevation(
            header.privileges_required,
            header.privileges_required_overrides_allowed,
        ),
        installation_metadata: metadata,
        switches: None,
    };
    proof {
        assert(r@.apps_and_features_entries == spec_base_installer(
            header@,
            languages@,
        ).apps_and_features_entries) by {
            if header@.uninstall_name.len() > 0 || header@.app_publisher.len() > 0
                || header@.app_version.len() > 0 {
                assert(r@.apps_and_features_entries->0 =~= spec_apps_entry(header@)->0);
            }
        }
    }
    r
}

fn opt_of(s: &String) -> (r: Option<String>)
    ensures
        match r {
            Some(t) => spec_opt_of(s@) == Some(t@),
            None => spec_opt_of(s@) is None,
        },
{
    if s.as_str().unicode_len() > 0 {
        Some(s.clone())
    } else {
        None
    }
}

/// Synthesizes the installer records of a decoded container: two where the
/// privilege level may be overridden, one otherwise.
pub fn synthesize(header: &InnoHeader, languages: &Vec<LanguageEntry>) -> (r: Vec<Installer>)
    ensures
        spec_installers_view(r@) == spec_synthesize(header@, languages@),
{
    let mut out: Vec<Installer> = Vec::new();
    if header.privileges_required_overrides_allowed == 0 {
        let base = base_installer(header, languages);
        out.push(base);
        proof {
            assert(spec_installers_view(out@) =~= spec_synthesize(header@, languages@));
        }
    } else {
        let has_switch = header.privileges_required_overrides_allowed & 1 == 1;
        let mut machine = base_installer(header, languages);
        machine.scope = Some(Scope::Machine);
        if has_switch {
            machine.switches = Some(InstallerSwitches { custom: Some(CustomSwitch::all_users()) });
        }
        let mut user = base_installer(header, languages);
        user.scope = Some(Scope::User);
        user.installation_metadata = None;
        if has_switch {
            user.switches = Some(InstallerSwitches { custom: Some(CustomSwitch::current_user()) });
        }
        out.push(machine);
        out.push(user);
        proof {
            assert(spec_installers_view(out@) =~= spec_synthesize(header@, languages@));
        }
    }
    out
}

/// Exactly one record comes out of a container that does not allow
/// overriding its privilege level, and exactly two — a machine record and
/// a user record, equal but for scope, switches and the user record's
/// cleared install location — out of one that does. The command-line
/// override permission alone attaches the scope switches.
pub proof fn lemma_dual_scope_emission(header: InnoHeaderS, languages: Seq<LanguageEntry>)
    ensures
        header.privileges_required_overrides_allowed == 0 ==> spec_synthesize(
            header,
            languages,
        ) =~= seq![spec_base_installer(header, languages)],
        header.privileges_required_overrides_allowed != 0 ==> {
            let rs = spec_synthesize(header, languages);
            let base = spec_base_installer(header, languages);
            &&& rs.len() == 2
            &&& rs[0].scope == Some(Scope::Machine)
            &&& rs[1].scope == Some(Scope::User)
            &&& rs[1].installation_metadata is None
            &&& rs[0].locale == rs[1].locale
            &&& rs[0].architecture == rs[1].architecture
            &&& rs[0].installer_type == rs[1].installer_type
            &&& rs[0].product_code == rs[1].product_code
            &&& rs[0].unsupported_os_architectures == rs[1].unsupported_os_architectures
            &&& rs[0].apps_and_features_entries == rs[1].apps_and_features_entries
            &&& rs[0].elevation_requirement == rs[1].elevation_requirement
            &&& rs[0].installation_metadata == base.installation_metadata
            &&& (header.privileges_required_overrides_allowed & 1 == 1 ==> rs[0].switches
                == Some(crate::manifest::InstallerSwitchesV { custom: Some("/ALLUSERS"@) })
                && rs[1].switches == Some(
                crate::manifest::InstallerSwitchesV { custom: Some("/CURRENTUSER"@) },
            ))
            &&& (header.privileges_required_overrides_allowed & 1 != 1 ==> rs[0].switches
                is None && rs[1].switches is None)
        },
{
}

/// The length in bytes of the fixed version run at the header offset.
pub const VERSION_LEN: usize = 64;

/// What parsing the payload after the version run yields, starting at the
/// expected-checksum word at `p`.
pub open spec fn spec_parse_payload(data: Seq<u8>, p: int, known: KnownVersion) -> Result<
    Seq<InstallerV>,
    InnoErrorS,
> {
    if p + 4 > data.len() {
        Err(InnoErrorS::TruncatedStream)
    } else {
        let expected = spec_le32(data[p], data[p + 1], data[p + 2], data[p + 3]);
        if spec_triple_lt((4, 0, 9), known.version.triple()) {
            if p + 9 > data.len() {
                Err(InnoErrorS::TruncatedStream)
            } else {
                let size = spec_le32(data[p + 4], data[p + 5], data[p + 6], data[p + 7]);
                let compressed = data[p + 8] != 0;
                let compression = spec_resolve_modern(known.version, size, compressed);
                spec_parse_stream(data, p + 4, 5, expected, compression, known)
            }
        } else {
            if p + 12 > data.len() {
                Err(InnoErrorS::TruncatedStream)
            } else {
                let compressed_size = spec_le32(data[p + 4], data[p + 5], data[p + 6], data[p + 7]);
                let uncompressed_size = spec_le32(
                    data[p + 8],
                    data[p + 9],
                    data[p + 10],
                    data[p + 11],
                );
                let compression = spec_resolve_legacy(compressed_size, uncompressed_size);
                spec_parse_stream(data, p + 4, 8, expected, compression, known)
            }
        }
    }
}

/// What checksum-guarding, de-blocking and decompressing the stored
/// payload, then decoding it, yields. The accumulated checksum over the
/// size fields must equal the declared expected value before any
/// decompressed byte is trusted.
pub open spec fn spec_parse_stream(
    data: Seq<u8>,
    fields_at: int,
    consumed: int,
    expected: u32,
    compression: Compression,
    known: KnownVersion,
) -> Result<Seq<InstallerV>, InnoErrorS> {
    let actual = spec_crc32(data.subrange(fields_at, fields_at + consumed));
    if actual != expected {
        Err(InnoErrorS::CrcChecksumMismatch { actual, expected })
    } else {
        let q = fields_at + consumed;
        let stored = compression.spec_stored_size() as int;
        if q + stored > data.len() {
            Err(InnoErrorS::TruncatedStream)
        } else {
            let payload = data.subrange(q, q + stored);
            match spec_deblock(payload) {
                None => Err(InnoErrorS::DecodeFailure),
                Some(deblocked) => match compression {
                    Compression::Stored(_) => spec_parse_body(deblocked, known),
                    Compression::Zlib(_) => match spec_inflate(deblocked) {
                        None => Err(InnoErrorS::DecodeFailure),
                        Some(stream) => spec_parse_body(stream, known),
                    },
                    Compression::Lzma1(_) => if deblocked.len() < 5 {
                        Err(InnoErrorS::TruncatedStream)
                    } else {
                        match spec_lzma1(deblocked.take(5), deblocked.skip(5)) {
                            None => Err(InnoErrorS::DecodeFailure),
                            Some(stream) => spec_parse_body(stream, known),
                        }
                    },
                },
            }
        }
    }
}

/// Skips one length-prefixed blob.
pub open spec fn spec_skip_blob(stream: Seq<u8>) -> Option<Seq<u8>> {
    if stream.len() >= 4 {
        let len = spec_le32(stream[0], stream[1], stream[2], stream[3]) as int;
        if stream.len() - 4 >= len {
            Some(stream.skip(4 + len))
        } else {
            None
        }
    } else {
        None
    }
}

/// Skips the legacy wizard-image section: two length-prefixed image blobs.
pub open spec fn spec_skip_wizard(stream: Seq<u8>) -> Option<Seq<u8>> {
    match spec_skip_blob(stream) {
        Some(rest) => spec_skip_blob(rest),
        None => None,
    }
}

/// What decoding the decompressed header stream yields: the structural
/// header, the language entries, the legacy wizard section for versions
/// before 4.0.0, and the remaining sections in their fixed order — then
/// the synthesized installer records. A read failure anywhere is fatal.
pub open spec fn spec_parse_body(stream: Seq<u8>, known: KnownVersion) -> Result<
    Seq<InstallerV>,
    InnoErrorS,
> {
    let v = known.version;
    let u = known.unicode;
    match spec_decode_record(stream, spec_header_schema(v), u) {
        None => Err(InnoErrorS::TruncatedStream),
        Some((values, r1)) => {
            let header = spec_build_header(values, v);
            match spec_decode_records(r1, header.language_count as int, spec_language_schema(), u) {
                None => Err(InnoErrorS::TruncatedStream),
                Some((langrecs, r2)) => {
                    let languages = spec_languages_from(langrecs);
                    match (if spec_has(v, 4, 0, 0) {
                        Some(r2)
                    } else {
                        spec_skip_wizard(r2)
                    }) {
                        None => Err(InnoErrorS::TruncatedStream),
                        Some(r3) => spec_parse_sections(r3, header, languages, known),
                    }
                },
            }
        },
    }
}

/// What consuming the fixed-order sections yields: messages, permissions,
/// type entries, components, tasks, directories, files, icons, ini entries
/// and registry entries, each with exactly the count the header declared.
pub open spec fn spec_parse_sections(
    stream: Seq<u8>,
    header: InnoHeaderS,
    languages: Seq<LanguageEntry>,
    known: KnownVersion,
) -> Result<Seq<InstallerV>, InnoErrorS> {
    let v = known.version;
    let u = known.unicode;
    match spec_decode_records(stream, header.message_count as int, spec_section_schema(Section::Message, v), u) {
        None => Err(InnoErrorS::TruncatedStream),
        Some((_, s1)) => match spec_decode_records(s1, header.permission_count as int, spec_section_schema(Section::Permission, v), u) {
            None => Err(InnoErrorS::TruncatedStream),
            Some((_, s2)) => match spec_decode_records(s2, header.type_count as int, spec_section_schema(Section::TypeEntry, v), u) {
                None => Err(InnoErrorS::TruncatedStream),
                Some((_, s3)) => match spec_decode_records(s3, header.component_count as int, spec_section_schema(Section::Component, v), u) {
                    None => Err(InnoErrorS::TruncatedStream),
                    Some((_, s4)) => match spec_decode_records(s4, header.task_count as int, spec_section_schema(Section::Task, v), u) {
                        None => Err(InnoErrorS::TruncatedStream),
                        Some((_, s5)) => match spec_decode_records(s5, header.directory_count as int, spec_section_schema(Section::Directory, v), u) {
                            None => Err(InnoErrorS::TruncatedStream),
                            Some((_, s6)) => match spec_decode_records(s6, header.file_count as int, spec_section_schema(Section::File, v), u) {
                                None => Err(InnoErrorS::TruncatedStream),
                                Some((_, s7)) => match spec_decode_records(s7, header.icon_count as int, spec_section_schema(Section::Icon, v), u) {
                                    None => Err(InnoErrorS::TruncatedStream),
                                    Some((_, s8)) => match spec_decode_records(s8, header.ini_entry_count as int, spec_section_schema(Section::IniEntry, v), u) {
                                        None => Err(InnoErrorS::TruncatedStream),
                                        Some((_, s9)) => match spec_decode_records(s9, header.registry_entry_count as int, spec_section_schema(Section::RegistryEntry, v), u) {
                                            None => Err(InnoErrorS::TruncatedStream),
                                            Some(_) => Ok(spec_synthesize(header, languages)),
                                        },
                                    },
                                },
                            },
                        },
                    },
                },
            },
        },
    }
}

/// What parsing from the structural header offset yields: the fixed-length
/// version run, trimmed at its first NUL, resolved against the registry
/// and held under the supported maximum, then the payload.
pub open spec fn spec_parse_at(data: Seq<u8>, ho: int) -> Result<Seq<InstallerV>, InnoErrorS> {
    if ho + 64 > data.len() {
        Err(InnoErrorS::InvalidSetupHeader)
    } else {
        let verbytes = data.subrange(ho, ho + 64);
        match spec_find_byte(verbytes, 0, 0) {
            None => Err(InnoErrorS::InvalidSetupHeader),
            Some(z) => {
                let name = spec_latin1(verbytes.take(z));
                match spec_lookup_version(name) {
                    None => Err(InnoErrorS::UnknownVersion(spec_utf8_lossy(verbytes.take(z)))),
                    Some(known) => if spec_version_lt(spec_max_supported_version(), known.version) {
                        Err(InnoErrorS::UnsupportedVersion(known))
                    } else {
                        spec_parse_payload(data, ho + 64, known)
                    },
                }
            },
        }
    }
}

/// What parsing a whole host file yields: the offset table located and
/// validated, then the structural header parsed at the offset it names.
pub open spec fn spec_parse_inno(data: Seq<u8>, resources: Seq<PeResource>) -> Result<
    Seq<InstallerV>,
    InnoErrorS,
> {
    match spec_locate_loader(data, resources) {
        Err(e) => Err(spec_loader_error(e)),
        Ok(loader) => spec_parse_at(data, loader.header_offset as int),
    }
}

fn le32_at_slice(data: &[u8], at: usize) -> (r: u32)
    requires
        at + 4 <= data@.len(),
    ensures
        r == spec_le32(data@[at as int], data@[at + 1], data@[at + 2], data@[at + 3]),
{
    let n = data.len();
    proof {
        assert(at + 4 <= n);
    }
    data[at] as u32 + data[at + 1] as u32 * 0x100 + data[at + 2] as u32 * 0x1_0000 + data[at
        + 3] as u32 * 0x100_0000
}

/// Skips one length-prefixed blob, advancing the reader.
fn skip_blob(reader: &mut ByteReader) -> (r: bool)
    requires
        old(reader).wf(),
    ensures
        final(reader).wf(),
        final(reader).data@ == old(reader).data@,
        r ==> spec_skip_blob(old(reader).remaining()) == Some(final(reader).remaining()),
        !r ==> spec_skip_blob(old(reader).remaining()) is None,
{
    let ghost r0 = old(reader).remaining();
    match reader.read_u32_le() {
        Some(len) => {
            proof {
                assert(reader.remaining() =~= r0.skip(4));
            }
            if reader.skip_bytes(len as usize) {
                proof {
                    assert(reader.remaining() =~= r0.skip(4 + len as int));
                }
                true
            } else {
                false
            }
        },
        None => false,
    }
}

/// Consumes the fixed-order sections, then synthesizes the installer
/// records.
fn parse_sections(
    reader: &mut ByteReader,
    header: &InnoHeader,
    languages: &Vec<LanguageEntry>,
    known: &KnownVersion,
) -> (r: Result<Vec<Installer>, InnoError>)
    requires
        old(reader).wf(),
    ensures
        match r {
            Ok(installers) => spec_parse_sections(
                old(reader).remaining(),
                header@,
                languages@,
                *known,
            ) == Ok::<Seq<InstallerV>, InnoErrorS>(spec_installers_view(installers@)),
            Err(e) => spec_parse_sections(old(reader).remaining(), header@, languages@, *known)
                == Err::<Seq<InstallerV>, InnoErrorS>(e@),
        },
{
    let u = known.unicode;
    let schema = section_schema(Section::Message, &known.version);
    match decode_records(reader, header.message_count, &schema, u) {
        None => {
            return Err(InnoError::TruncatedStream);
        },
        Some(_) => {},
    }
    let schema = section_schema(Section::Permission, &known.version);
    match decode_records(reader, header.permission_count, &schema, u) {
        None => {
            return Err(InnoError::TruncatedStream);
        },
        Some(_) => {},
    }
    let schema = section_schema(Section::TypeEntry, &known.version);
    match decode_records(reader, header.type_count, &schema, u) {
        None => {
            return Err(InnoError::TruncatedStream);
        },
        Some(_) => {},
    }
    let schema = section_schema(Section::Component, &known.version);
    match decode_records(reader, header.component_count, &schema, u) {
        None => {
            return Err(InnoError::TruncatedStream);
        },
        Some(_) => {},
    }
    let schema = section_schema(Section::Task, &known.version);
    match decode_records(reader, header.task_count, &schema, u) {
        None => {
            return Err(InnoError::TruncatedStream);
        },
        Some(_) => {},
    }
    let schema = section_schema(Section::Directory, &known.version);
    match decode_records(reader, header.directory_count, &schema, u) {
        None => {
            return Err(InnoError::TruncatedStream);
        },
        Some(_) => {},
    }
    let schema = section_schema(Section::File, &known.version);
    match decode_records(reader, header.file_count, &schema, u) {
        None => {
            return Err(InnoError::TruncatedStream);
        },
        Some(_) => {},
    }
    let schema = section_schema(Section::Icon, &known.version);
    match decode_records(reader, header.icon_count, &schema, u) {
        None => {
            return Err(InnoError::TruncatedStream);
        },
        Some(_) => {},
    }
    let schema = section_schema(Section::IniEntry, &known.version);
    match decode_records(reader, header.ini_entry_count, &schema, u) {
        None => {
            return Err(InnoError::TruncatedStream);
        },
        Some(_) => {},
    }
    let schema = section_schema(Section::RegistryEntry, &known.version);
    match decode_records(reader, header.registry_entry_count, &schema, u) {
        None => {
            return Err(InnoError::TruncatedStream);
        },
        Some(_) => {},
    }
    Ok(synthesize(header, languages))
}

/// Decodes the decompressed header stream: structural header, languages,
/// the legacy wizard section, then the remaining sections.
fn parse_body(stream: &Vec<u8>, known: &KnownVersion) -> (r: Result<Vec<Installer>, InnoError>)
    ensures
        match r {
            Ok(installers) => spec_parse_body(stream@, *known) == Ok::<
                Seq<InstallerV>,
                InnoErrorS,
            >(spec_installers_view(installers@)),
            Err(e) => spec_parse_body(stream@, *known) == Err::<Seq<InstallerV>, InnoErrorS>(e@),
        },
{
    let mut reader = ByteReader::new(stream.as_slice());
    proof {
        assert(reader.remaining() =~= stream@);
    }
    let u = known.unicode;
    let hs = header_schema(&known.version);
    let values = match decode_record(&mut reader, &hs, u) {
        None => {
            return Err(InnoError::TruncatedStream);
        },
        Some(v) => v,
    };
    let header = build_header(&values, &known.version);
    let ls = language_schema();
    let langrecs = match decode_records(&mut reader, header.language_count, &ls, u) {
        None => {
            return Err(InnoError::TruncatedStream);
        },
        Some(v) => v,
    };
    let languages = languages_from_records(&langrecs);
    if known.version.before_triple(4, 0, 0) {
        let ghost r2 = reader.remaining();
        if !skip_blob(&mut reader) {
            proof {
                assert(spec_skip_wizard(r2) is None);
            }
            return Err(InnoError::TruncatedStream);
        }
        if !skip_blob(&mut reader) {
            proof {
                assert(spec_skip_wizard(r2) is None);
            }
            return Err(InnoError::TruncatedStream);
        }
        proof {
            assert(spec_skip_wizard(r2) == Some(reader.remaining()));
        }
    }
    parse_sections(&mut reader, &header, &languages, known)
}

/// Checksum-guards the size fields, slices and de-blocks the stored
/// payload, decompresses it, and decodes the result.
fn parse_stream(
    data: &[u8],
    fields_at: usize,
    consumed: usize,
    expected: u32,
    compression: Compression,
    known: &KnownVersion,
) -> (r: Result<Vec<Installer>, InnoError>)
    requires
        fields_at + consumed <= data@.len(),
    ensures
        match r {
            Ok(installers) => spec_parse_stream(
                data@,
                fields_at as int,
                consumed as int,
                expected,
                compression,
                *known,
            ) == Ok::<Seq<InstallerV>, InnoErrorS>(spec_installers_view(installers@)),
            Err(e) => spec_parse_stream(
                data@,
                fields_at as int,
                consumed as int,
                expected,
                compression,
                *known,
            ) == Err::<Seq<InstallerV>, InnoErrorS>(e@),
        },
{
    let n = data.len();
    proof {
        assert(fields_at + consumed <= n);
    }
    let fields = match bytes_range(data, fields_at, consumed) {
        Some(f) => f,
        None => {
            proof {
                assert(false);
            }
            return Err(InnoError::TruncatedStream);
        },
    };
    let actual = crc32_of(&fields);
    if actual != expected {
        return Err(InnoError::CrcChecksumMismatch { actual, expected });
    }
    let q = fields_at + consumed;
    let stored64 = compression.stored_size();
    let avail: u64 = (data.len() - q) as u64;
    if stored64 > avail {
        return Err(InnoError::TruncatedStream);
    }
    let stored = stored64 as usize;
    let payload = match bytes_range(data, q, stored) {
        Some(p) => p,
        None => {
            proof {
                assert(false);
            }
            return Err(InnoError::TruncatedStream);
        },
    };
    let deblocked = match crate::installers::block::deblock(&payload) {
        None => {
            return Err(InnoError::DecodeFailure);
        },
        Some(d) => d,
    };
    match compression {
        Compression::Stored(_) => parse_body(&deblocked, known),
        Compression::Zlib(_) => {
            match crate::installers::codec::zlib_decompress(&deblocked) {
                None => Err(InnoError::DecodeFailure),
                Some(stream) => parse_body(&stream, known),
            }
        },
        Compression::Lzma1(_) => {
            if deblocked.len() < 5 {
                return Err(InnoError::TruncatedStream);
            }
            let props = match bytes_range(deblocked.as_slice(), 0, 5) {
                Some(p) => p,
                None => {
                    proof {
                        assert(false);
                    }
                    return Err(InnoError::TruncatedStream);
                },
            };
            let rest = match bytes_range(deblocked.as_slice(), 5, deblocked.len() - 5) {
                Some(p) => p,
                None => {
                    proof {
                        assert(false);
                    }
                    return Err(InnoError::TruncatedStream);
                },
            };
            proof {
                assert(props@ =~= deblocked@.take(5));
                assert(rest@ =~= deblocked@.skip(5));
            }
            match crate::installers::codec::lzma1_decompress(&props, &rest) {
                None => Err(InnoError::DecodeFailure),
                Some(stream) => parse_body(&stream, known),
            }
        },
    }
}

/// Reads the expected checksum and the version-gated size fields, resolves
/// the compression, and parses the stream behind them.
fn parse_payload(data: &[u8], p: usize, known: &KnownVersion) -> (r: Result<
    Vec<Installer>,
    InnoError,
>)
    ensures
        match r {
            Ok(installers) => spec_parse_payload(data@, p as int, *known) == Ok::<
                Seq<InstallerV>,
                InnoErrorS,
            >(spec_installers_view(installers@)),
            Err(e) => spec_parse_payload(data@, p as int, *known) == Err::<
                Seq<InstallerV>,
                InnoErrorS,
            >(e@),
        },
{
    if data.len() < 4 || p > data.len() - 4 {
        return Err(InnoError::TruncatedStream);
    }
    let expected = le32_at_slice(data, p);
    if known.version.after_triple(4, 0, 9) {
        if data.len() < 9 || p > data.len() - 9 {
            return Err(InnoError::TruncatedStream);
        }
        let size = le32_at_slice(data, p + 4);
        let compressed = data[p + 8] != 0;
        let compression = resolve_modern(&known.version, size, compressed);
        parse_stream(data, p + 4, 5, expected, compression, known)
    } else {
        if data.len() < 12 || p > data.len() - 12 {
            return Err(InnoError::TruncatedStream);
        }
        let compressed_size = le32_at_slice(data, p + 4);
        let uncompressed_size = le32_at_slice(data, p + 8);
        let compression = resolve_legacy(compressed_size, uncompressed_size);
        parse_stream(data, p + 4, 8, expected, compression, known)
    }
}

/// Reads and resolves the fixed-length version run at the structural
/// header offset, then parses the payload behind it.
fn parse_at(data: &[u8], ho: usize) -> (r: Result<Vec<Installer>, InnoError>)
    ensures
        match r {
            Ok(installers) => spec_parse_at(data@, ho as int) == Ok::<
                Seq<InstallerV>,
                InnoErrorS,
            >(spec_installers_view(installers@)),
            Err(e) => spec_parse_at(data@, ho as int) == Err::<Seq<InstallerV>, InnoErrorS>(e@),
        },
{
    if data.len() < VERSION_LEN || ho > data.len() - VERSION_LEN {
        return Err(InnoError::InvalidSetupHeader);
    }
    let verbytes = match bytes_range(data, ho, VERSION_LEN) {
        Some(v) => v,
        None => {
            proof {
                assert(false);
            }
            return Err(InnoError::InvalidSetupHeader);
        },
    };
    match find_byte(&verbytes, 0) {
        None => Err(InnoError::InvalidSetupHeader),
        Some(z) => {
            let trimmed = match bytes_range(verbytes.as_slice(), 0, z) {
                Some(t) => t,
                None => {
                    proof {
                        crate::installers::inno::lemma_find_byte_in_range(verbytes@, 0, 0);
                        assert(false);
                    }
                    return Err(InnoError::InvalidSetupHeader);
                },
            };
            proof {
                assert(trimmed@ =~= verbytes@.take(z as int));
            }
            match from_version_bytes(&trimmed) {
                None => Err(InnoError::UnknownVersion(utf8_lossy_string(&trimmed))),
                Some(known) => {
                    let max = max_supported_version();
                    if known.version.gt(&max) {
                        Err(InnoError::UnsupportedVersion(known))
                    } else {
                        parse_payload(data, ho + VERSION_LEN, &known)
                    }
                },
            }
        },
    }
}

/// A found byte position lies inside the sequence.
pub proof fn lemma_find_byte_in_range(s: Seq<u8>, b: u8, from: int)
    requires
        0 <= from,
    ensures
        match spec_find_byte(s, b, from) {
            Some(i) => from <= i < s.len() && s[i] == b,
            None => true,
        },
    decreases s.len() + 1 - from,
{
    if from >= s.len() {
    } else if s[from] == b {
    } else {
        lemma_find_byte_in_range(s, b, from + 1);
    }
}

fn map_loader_error(e: LoaderError) -> (r: InnoError)
    ensures
        r@ == spec_loader_error(e@),
{
    match e {
        LoaderError::NotInnoFile => InnoError::NotInnoFile,
        LoaderError::UnknownSignature(sig) => InnoError::UnknownLoaderSignature(sig),
        LoaderError::ChecksumMismatch { actual, expected } => InnoError::CrcChecksumMismatch {
            actual,
            expected,
        },
        LoaderError::Truncated => InnoError::TruncatedStream,
    }
}

impl Inno {
    /// Parses a whole host file: locates and validates the offset table,
    /// resolves the version run against the registry, checksum-guards and
    /// decompresses the structural header, decodes every section, and
    /// synthesizes the normalized installer records. All-or-nothing: any
    /// structural, checksum or version failure aborts the file's analysis.
    pub fn new(data: &[u8], resources: &Vec<PeResource>) -> (r: Result<Inno, InnoError>)
        ensures
            match r {
                Ok(inno) => spec_parse_inno(data@, resources@) == Ok::<
                    Seq<InstallerV>,
                    InnoErrorS,
                >(spec_installers_view(inno.installers@)),
                Err(e) => spec_parse_inno(data@, resources@) == Err::<
                    Seq<InstallerV>,
                    InnoErrorS,
                >(e@),
            },
    {
        match locate_loader(data, resources) {
            Err(e) => Err(map_loader_error(e)),
            Ok(loader) => {
                match parse_at(data, loader.header_offset as usize) {
                    Ok(installers) => Ok(Inno { installers }),
                    Err(e) => Err(e),
                }
            },
        }
    }
}

} // verus!
