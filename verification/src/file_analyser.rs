//! The format dispatcher's decisions: which parser a file's extension
//! selects, and — when no specialized installer format matches an
//! executable — whether its version information reads like an installer
//! at all.

use vstd::prelude::*;
use crate::manifest::{Installer, InstallerType};
use crate::strutil::{ascii_lower, chars_of, contains_ci, eq_lit, spec_ascii_lower, spec_contains_ci};

verus! {

pub const EXE: &'static str = "exe";

pub const MSI: &'static str = "msi";

pub const MSIX: &'static str = "msix";

pub const APPX: &'static str = "appx";

pub const MSIX_BUNDLE: &'static str = "msixbundle";

pub const APPX_BUNDLE: &'static str = "appxbundle";

pub const ZIP: &'static str = "zip";

/// The parser family a file extension selects.
#[derive(Clone, Copy, PartialEq, Eq, Structural, Debug)]
pub enum DispatchKind {
    /// A Windows Installer database.
    Msi,
    /// A packaged application, plain or bundled.
    Msix,
    MsixBundle,
    /// A plain archive.
    Zip,
    /// A Windows executable: the embedded-container parsers apply.
    Exe,
}

/// The parser family an extension selects, after ASCII lower-casing:
/// exactly the known extensions are dispatched, and anything else is
/// unsupported.
pub open spec fn spec_classify_extension(ext: Seq<char>) -> Option<DispatchKind> {
    let e = spec_ascii_lower(ext);
    if e == "msi"@ {
        Some(DispatchKind::Msi)
    } else if e == "msix"@ || e == "appx"@ {
        Some(DispatchKind::Msix)
    } else if e == "msixbundle"@ || e == "appxbundle"@ {
        Some(DispatchKind::MsixBundle)
    } else if e == "zip"@ {
        Some(DispatchKind::Zip)
    } else if e == "exe"@ {
        Some(DispatchKind::Exe)
    } else {
        None
    }
}

/// Selects the parser family for a file extension.
pub fn classify_extension(extension: &str) -> (r: Option<DispatchKind>)
    ensures
        r == spec_classify_extension(extension@),
{
    let cs = chars_of(extension);
    let e = ascii_lower(&cs);
    if eq_lit(&e, "msi") {
        Some(DispatchKind::Msi)
    } else if eq_lit(&e, "msix") || eq_lit(&e, "appx") {
        Some(DispatchKind::Msix)
    } else if eq_lit(&e, "msixbundle") || eq_lit(&e, "appxbundle") {
        Some(DispatchKind::MsixBundle)
    } else if eq_lit(&e, "zip") {
        Some(DispatchKind::Zip)
    } else if eq_lit(&e, "exe") {
        Some(DispatchKind::Exe)
    } else {
        None
    }
}

/// A version-information value reads like an installer: it contains one of
/// the basic installer keywords, case-insensitively.
pub open spec fn spec_value_has_keyword(value: Seq<char>) -> bool {
    spec_contains_ci(value, "installer"@) || spec_contains_ci(value, "setup"@)
        || spec_contains_ci(value, "7zs.sfx"@) || spec_contains_ci(value, "7zsd.sfx"@)
}

/// Some file-description or original-filename entry reads like an
/// installer, at or after entry `i`.
pub open spec fn spec_any_keyword(entries: Seq<(Seq<char>, Seq<char>)>, i: int) -> bool
    decreases entries.len() - i,
{
    if i < 0 || i >= entries.len() {
        false
    } else {
        ((entries[i].0 == "FileDescription"@ || entries[i].0 == "OriginalFilename"@)
            && spec_value_has_keyword(entries[i].1)) || spec_any_keyword(entries, i + 1)
    }
}

/// The classification an executable falls back to when no specialized
/// installer format matches: an installer-like version-information entry
/// makes it a plain installer executable, anything else runs standalone.
pub open spec fn spec_fallback_installer_type(entries: Seq<(Seq<char>, Seq<char>)>) -> InstallerType {
    if spec_any_keyword(entries, 0) {
        InstallerType::Exe
    } else {
        InstallerType::Portable
    }
}

/// Classifies an executable by its version-information entries.
pub fn fallback_installer_type(entries: &Vec<(String, String)>) -> (r: InstallerType)
    ensures
        r == spec_fallback_installer_type(spec_entries_view(entries@)),
{
    let installer = chars_of("installer");
    let setup = chars_of("setup");
    let sfx1 = chars_of("7zs.sfx");
    let sfx2 = chars_of("7zsd.sfx");
    let mut i: usize = 0;
    while i < entries.len()
        invariant
            i <= entries.len(),
            installer@ == "installer"@,
            setup@ == "setup"@,
            sfx1@ == "7zs.sfx"@,
            sfx2@ == "7zsd.sfx"@,
            spec_any_keyword(spec_entries_view(entries@), 0) == spec_any_keyword(
                spec_entries_view(entries@),
                i as int,
            ),
        decreases entries.len() - i,
    {
        proof {
            assert(spec_entries_view(entries@)[i as int] == (entries@[i as int].0@, entries@[
                i as int].1@));
        }
        let key = chars_of(entries[i].0.as_str());
        let interesting = eq_lit(&key, "FileDescription") || eq_lit(&key, "OriginalFilename");
        if interesting {
            let value = chars_of(entries[i].1.as_str());
            if contains_ci(&value, &installer) || contains_ci(&value, &setup) || contains_ci(
                &value,
                &sfx1,
            ) || contains_ci(&value, &sfx2) {
                proof {
                    assert(spec_any_keyword(spec_entries_view(entries@), i as int));
                }
                return InstallerType::Exe;
            }
        }
        i = i + 1;
    }
    InstallerType::Portable
}

/// The mathematical values of version-information entries.
pub open spec fn spec_entries_view(entries: Seq<(String, String)>) -> Seq<(Seq<char>, Seq<char>)> {
    entries.map_values(|e: (String, String)| (e.0@, e.1@))
}

/// What analysing one file yields: its name, the version-information
/// identity strings an outside collaborator extracted, and the normalized
/// installer records.
pub struct FileAnalyser {
    pub file_name: String,
    pub copyright: Option<String>,
    pub package_name: Option<String>,
    pub publisher: Option<String>,
    pub installers: Vec<Installer>,
}

} // verus!
