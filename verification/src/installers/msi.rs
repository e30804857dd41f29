//! The Windows Installer package reader: table reading is delegated to a
//! structured-storage reader behind trusted wrappers, and everything those
//! tables decide — architecture, scope, identity, install directory — is
//! synthesized by verified code.

use vstd::prelude::*;
use crate::manifest::{
    AppsAndFeaturesEntry, Architecture, InstallationMetadata, Installer, InstallerType,
    InstallerV, Scope, spec_opt_text,
};
use crate::strutil::{
    chars_of, eq_lit, extend_chars, find_chars, match_at, spec_find, string_from_chars,
};

verus! {

/// What the numeric language code resolves to: a locale tag out of a fixed
/// table.
pub uninterp spec fn spec_lang_tag(code: u16) -> Seq<char>;

/// Relies on `msi::Language::from_code` and `msi::Language::tag`: a pure
/// lookup of the locale tag for a numeric language code.
#[verifier::external_body]
pub(crate) fn language_tag(code: u16) -> (r: String)
    ensures
        r@ == spec_lang_tag(code),
{
    String::from_str(msi::Language::from_code(code).tag())
}

#[verifier::external_type_specification]
#[verifier::external_body]
#[verifier::reject_recursive_types(F)]
pub struct ExMsiPackage<F>(msi::Package<F>);

#[verifier::external_type_specification]
#[verifier::external_body]
#[verifier::reject_recursive_types(T)]
pub struct ExCursor<T>(std::io::Cursor<T>);

#[verifier::external_type_specification]
#[verifier::external_body]
pub struct ExIoError(std::io::Error);

/// The architecture string of a package's summary information.
pub uninterp spec fn spec_msi_arch(p: msi::Package<std::io::Cursor<Vec<u8>>>) -> Option<
    Seq<char>,
>;

/// The creating-application string of a package's summary information.
pub uninterp spec fn spec_msi_creating_application(
    p: msi::Package<std::io::Cursor<Vec<u8>>>,
) -> Option<Seq<char>>;

/// The comments string of a package's summary information.
pub uninterp spec fn spec_msi_comments(p: msi::Package<std::io::Cursor<Vec<u8>>>) -> Option<
    Seq<char>,
>;

/// The rows of a package's property table — property name and value — or
/// nothing where the package has no readable property table.
pub uninterp spec fn spec_msi_property_rows(p: msi::Package<std::io::Cursor<Vec<u8>>>) -> Option<
    Seq<(Option<Seq<char>>, Option<Seq<char>>)>,
>;

/// The rows of a package's directory table — directory, parent, default
/// name — or nothing where the package has no readable directory table.
pub uninterp spec fn spec_msi_directory_rows(p: msi::Package<std::io::Cursor<Vec<u8>>>) -> Option<
    Seq<(Option<Seq<char>>, Option<Seq<char>>, Option<Seq<char>>)>,
>;

/// The property column of a package's control table, or nothing where the
/// package has no readable control table.
pub uninterp spec fn spec_msi_control_properties(
    p: msi::Package<std::io::Cursor<Vec<u8>>>,
) -> Option<Seq<Option<Seq<char>>>>;

/// The names are logical package contents: reading tables never changes
/// them.
pub open spec fn spec_msi_contents_unchanged(
    a: msi::Package<std::io::Cursor<Vec<u8>>>,
    b: msi::Package<std::io::Cursor<Vec<u8>>>,
) -> bool {
    spec_msi_arch(a) == spec_msi_arch(b) && spec_msi_creating_application(a)
        == spec_msi_creating_application(b) && spec_msi_comments(a) == spec_msi_comments(b)
        && spec_msi_property_rows(a) == spec_msi_property_rows(b) && spec_msi_directory_rows(a)
        == spec_msi_directory_rows(b) && spec_msi_control_properties(a)
        == spec_msi_control_properties(b)
}

/// The bytes parse as a structured-storage package.
pub uninterp spec fn spec_msi_opens(data: Seq<u8>) -> bool;

/// The architecture string of the package the bytes hold.
pub uninterp spec fn spec_msi_arch_of(data: Seq<u8>) -> Option<Seq<char>>;

/// The creating-application string of the package the bytes hold.
pub uninterp spec fn spec_msi_creating_application_of(data: Seq<u8>) -> Option<Seq<char>>;

/// The comments string of the package the bytes hold.
pub uninterp spec fn spec_msi_comments_of(data: Seq<u8>) -> Option<Seq<char>>;

/// The property-table rows of the package the bytes hold, or nothing
/// where that table is unreadable.
pub uninterp spec fn spec_msi_property_rows_of(data: Seq<u8>) -> Option<
    Seq<(Option<Seq<char>>, Option<Seq<char>>)>,
>;

/// The directory-table rows of the package the bytes hold, or nothing
/// where that table is unreadable.
pub uninterp spec fn spec_msi_directory_rows_of(data: Seq<u8>) -> Option<
    Seq<(Option<Seq<char>>, Option<Seq<char>>, Option<Seq<char>>)>,
>;

/// The control-table property column of the package the bytes hold, or
/// nothing where that table is unreadable.
pub uninterp spec fn spec_msi_control_properties_of(data: Seq<u8>) -> Option<
    Seq<Option<Seq<char>>>,
>;

/// Relies on `msi::Package::open`: parsing the in-memory bytes is
/// deterministic — whether they open, the summary strings, and the
/// readable tables are functions of the bytes alone, so the opened
/// package's contents equal the named contents of the bytes.
#[verifier::external_body]
pub(crate) fn open_package(data: &[u8]) -> (r: Result<
    msi::Package<std::io::Cursor<Vec<u8>>>,
    std::io::Error,
>)
    ensures
        r is Ok <==> spec_msi_opens(data@),
        r is Ok ==> spec_msi_arch(r->Ok_0) == spec_msi_arch_of(data@)
            && spec_msi_creating_application(r->Ok_0) == spec_msi_creating_application_of(data@)
            && spec_msi_comments(r->Ok_0) == spec_msi_comments_of(data@)
            && spec_msi_property_rows(r->Ok_0) == spec_msi_property_rows_of(data@)
            && spec_msi_directory_rows(r->Ok_0) == spec_msi_directory_rows_of(data@)
            && spec_msi_control_properties(r->Ok_0) == spec_msi_control_properties_of(data@),
{
    msi::Package::open(std::io::Cursor::new(data.to_vec()))
}

/// Relies on `msi::SummaryInfo::arch`: the template architecture string.
#[verifier::external_body]
pub(crate) fn package_arch(p: &msi::Package<std::io::Cursor<Vec<u8>>>) -> (r: Option<String>)
    ensures
        match r {
            Some(s) => spec_msi_arch(*p) == Some(s@),
            None => spec_msi_arch(*p) is None,
        },
{
    p.summary_info().arch().map(|s| s.to_owned())
}

/// Relies on `msi::SummaryInfo::creating_application`.
#[verifier::external_body]
pub(crate) fn package_creating_application(p: &msi::Package<std::io::Cursor<Vec<u8>>>) -> (r: Option<
    String,
>)
    ensures
        match r {
            Some(s) => spec_msi_creating_application(*p) == Some(s@),
            None => spec_msi_creating_application(*p) is None,
        },
{
    p.summary_info().creating_application().map(|s| s.to_owned())
}

/// Relies on `msi::SummaryInfo::comments`.
#[verifier::external_body]
pub(crate) fn package_comments(p: &msi::Package<std::io::Cursor<Vec<u8>>>) -> (r: Option<String>)
    ensures
        match r {
            Some(s) => spec_msi_comments(*p) == Some(s@),
            None => spec_msi_comments(*p) is None,
        },
{
    p.summary_info().comments().map(|s| s.to_owned())
}

/// Relies on `msi::Package::select_rows` over the property table, with the
/// property and value columns selected by name.
#[verifier::external_body]
pub(crate) fn select_property_rows(p: &mut msi::Package<std::io::Cursor<Vec<u8>>>) -> (r: Result<
    Vec<(Option<String>, Option<String>)>,
    std::io::Error,
>)
    ensures
        spec_msi_contents_unchanged(*old(p), *final(p)),
        match r {
            Ok(rows) => spec_msi_property_rows(*old(p)) == Some(spec_prop_rows_view(rows@)),
            Err(_) => spec_msi_property_rows(*old(p)) is None,
        },
{
    let rows = p.select_rows(msi::Select::table("Property").columns(&["Property", "Value"]))?;
    Ok(
        rows.map(
            |row| (row[0].as_str().map(|s| s.to_owned()), row[1].as_str().map(|s| s.to_owned())),
        ).collect(),
    )
}

/// Relies on `msi::Package::select_rows` over the directory table, with
/// the directory, parent and default-name columns selected by name.
#[verifier::external_body]
pub(crate) fn select_directory_rows(p: &mut msi::Package<std::io::Cursor<Vec<u8>>>) -> (r: Result<
    Vec<(Option<String>, Option<String>, Option<String>)>,
    std::io::Error,
>)
    ensures
        spec_msi_contents_unchanged(*old(p), *final(p)),
        match r {
            Ok(rows) => spec_msi_directory_rows(*old(p)) == Some(spec_dir_rows_view(rows@)),
            Err(_) => spec_msi_directory_rows(*old(p)) is None,
        },
{
    let rows = p.select_rows(
        msi::Select::table("Directory").columns(&["Directory", "Directory_Parent", "DefaultDir"]),
    )?;
    Ok(
        rows.map(
            |row| (
                row[0].as_str().map(|s| s.to_owned()),
                row[1].as_str().map(|s| s.to_owned()),
                row[2].as_str().map(|s| s.to_owned()),
            ),
        ).collect(),
    )
}

/// Relies on `msi::Package::select_rows` over the control table, with the
/// property column selected by name.
#[verifier::external_body]
pub(crate) fn select_control_properties(p: &mut msi::Package<std::io::Cursor<Vec<u8>>>) -> (r: Result<
    Vec<Option<String>>,
    std::io::Error,
>)
    ensures
        spec_msi_contents_unchanged(*old(p), *final(p)),
        match r {
            Ok(rows) => spec_msi_control_properties(*old(p)) == Some(spec_opt_rows_view(rows@)),
            Err(_) => spec_msi_control_properties(*old(p)) is None,
        },
{
    let rows = p.select_rows(msi::Select::table("Control").columns(&["Property"]))?;
    Ok(rows.map(|row| row[0].as_str().map(|s| s.to_owned())).collect())
}

/// The mathematical values of property rows.
pub open spec fn spec_prop_rows_view(rows: Seq<(Option<String>, Option<String>)>) -> Seq<
    (Option<Seq<char>>, Option<Seq<char>>),
> {
    rows.map_values(
        |row: (Option<String>, Option<String>)| (spec_opt_text(row.0), spec_opt_text(row.1)),
    )
}

/// The mathematical values of directory rows.
pub open spec fn spec_dir_rows_view(
    rows: Seq<(Option<String>, Option<String>, Option<String>)>,
) -> Seq<(Option<Seq<char>>, Option<Seq<char>>, Option<Seq<char>>)> {
    rows.map_values(
        |row: (Option<String>, Option<String>, Option<String>)| (
            spec_opt_text(row.0),
            spec_opt_text(row.1),
            spec_opt_text(row.2),
        ),
    )
}

/// The mathematical values of a single optional-text column.
pub open spec fn spec_opt_rows_view(rows: Seq<Option<String>>) -> Seq<Option<Seq<char>>> {
    rows.map_values(|row: Option<String>| spec_opt_text(row))
}

/// How reading a package can fail.
#[derive(Clone, PartialEq, Eq, Debug)]
pub enum MsiError {
    /// The bytes are not a readable package.
    OpenFailure,
    /// A required table could not be read.
    QueryFailure,
    /// The summary information names an architecture this reader does not
    /// know.
    UnknownArchitecture(String),
}

/// The mathematical value of a package-reading failure.
pub enum MsiErrorS {
    OpenFailure,
    QueryFailure,
    UnknownArchitecture(Seq<char>),
}

impl View for MsiError {
    type V = MsiErrorS;

    open spec fn view(&self) -> MsiErrorS {
        match self {
            MsiError::OpenFailure => MsiErrorS::OpenFailure,
            MsiError::QueryFailure => MsiErrorS::QueryFailure,
            MsiError::UnknownArchitecture(s) => MsiErrorS::UnknownArchitecture(s@),
        }
    }
}

/// The architecture a summary template string names: several spellings for
/// the 64-bit and 32-bit x86 lines, the two ARM lines, and — absent a
/// template — the 32-bit default. An unknown spelling is an error.
pub open spec fn spec_arch_of(arch: Option<Seq<char>>) -> Result<Architecture, Seq<char>> {
    match arch {
        Some(s) => if s == "x64"@ || s == "Intel64"@ || s == "AMD64"@ {
            Ok(Architecture::X64)
        } else if s == "Intel"@ {
            Ok(Architecture::X86)
        } else if s == "Arm64"@ {
            Ok(Architecture::Arm64)
        } else if s == "Arm"@ {
            Ok(Architecture::Arm)
        } else {
            Err(s)
        },
        None => Ok(Architecture::X86),
    }
}

fn arch_of(arch: &Option<String>) -> (r: Result<Architecture, String>)
    ensures
        match r {
            Ok(a) => spec_arch_of(spec_opt_text(*arch)) == Ok::<Architecture, Seq<char>>(a),
            Err(s) => spec_arch_of(spec_opt_text(*arch)) == Err::<Architecture, Seq<char>>(s@),
        },
{
    match arch {
        Some(s) => {
            let cs = chars_of(s.as_str());
            if eq_lit(&cs, "x64") || eq_lit(&cs, "Intel64") || eq_lit(&cs, "AMD64") {
                Ok(Architecture::X64)
            } else if eq_lit(&cs, "Intel") {
                Ok(Architecture::X86)
            } else if eq_lit(&cs, "Arm64") {
                Ok(Architecture::Arm64)
            } else if eq_lit(&cs, "Arm") {
                Ok(Architecture::Arm)
            } else {
                Err(s.clone())
            }
        },
        None => Ok(Architecture::X86),
    }
}

/// The property table as name-value pairs: the rows that carry both a
/// name and a value, in row order.
pub open spec fn spec_property_table(
    rows: Seq<(Option<Seq<char>>, Option<Seq<char>>)>,
) -> Seq<(Seq<char>, Seq<char>)>
    decreases rows.len(),
{
    if rows.len() == 0 {
        Seq::empty()
    } else {
        let head = match (rows[0].0, rows[0].1) {
            (Some(k), Some(v)) => seq![(k, v)],
            _ => Seq::<(Seq<char>, Seq<char>)>::empty(),
        };
        head + spec_property_table(rows.drop_first())
    }
}

/// The value of the first table row with the given name.
pub open spec fn spec_table_get(table: Seq<(Seq<char>, Seq<char>)>, key: Seq<char>) -> Option<
    Seq<char>,
>
    decreases table.len(),
{
    if table.len() == 0 {
        None
    } else if table[0].0 == key {
        Some(table[0].1)
    } else {
        spec_table_get(table.drop_first(), key)
    }
}

/// Builds the property table out of the raw rows.
pub fn property_table_of(rows: &Vec<(Option<String>, Option<String>)>) -> (r: Vec<
    (String, String),
>)
    ensures
        spec_string_pairs_view(r@) == spec_property_table(spec_prop_rows_view(rows@)),
{
    let mut out: Vec<(String, String)> = Vec::new();
    let mut i: usize = 0;
    proof {
        assert(spec_prop_rows_view(rows@).skip(0) =~= spec_prop_rows_view(rows@));
        assert(spec_string_pairs_view(out@) =~= Seq::<(Seq<char>, Seq<char>)>::empty());
        assert(Seq::<(Seq<char>, Seq<char>)>::empty() + spec_property_table(
            spec_prop_rows_view(rows@),
        ) =~= spec_property_table(spec_prop_rows_view(rows@)));
    }
    while i < rows.len()
        invariant
            i <= rows.len(),
            spec_property_table(spec_prop_rows_view(rows@)) == spec_string_pairs_view(out@)
                + spec_property_table(spec_prop_rows_view(rows@).skip(i as int)),
        decreases rows.len() - i,
    {
        let ghost tail = spec_prop_rows_view(rows@).skip(i as int);
        let ghost out_entry = out@;
        proof {
            assert(tail[0] == spec_prop_rows_view(rows@)[i as int]);
            assert(tail.drop_first() =~= spec_prop_rows_view(rows@).skip(i + 1));
        }
        match (&rows[i].0, &rows[i].1) {
            (Some(k), Some(v)) => {
                out.push((k.clone(), v.clone()));
                proof {
                    assert(spec_string_pairs_view(out@) =~= spec_string_pairs_view(
                        out_entry,
                    ).push((k@, v@)));
                    assert(spec_string_pairs_view(out_entry) + (seq![(k@, v@)]
                        + spec_property_table(tail.drop_first())) =~= spec_string_pairs_view(out@)
                        + spec_property_table(tail.drop_first()));
                }
            },
            _ => {
                proof {
                    assert(spec_string_pairs_view(out_entry) + (
                    Seq::<(Seq<char>, Seq<char>)>::empty() + spec_property_table(
                        tail.drop_first(),
                    )) =~= spec_string_pairs_view(out_entry) + spec_property_table(
                        tail.drop_first(),
                    ));
                }
            },
        }
        i = i + 1;
    }
    proof {
        assert(spec_prop_rows_view(rows@).skip(rows@.len() as int)
            =~= Seq::<(Option<Seq<char>>, Option<Seq<char>>)>::empty());
        assert(spec_string_pairs_view(out@) + Seq::<(Seq<char>, Seq<char>)>::empty()
            =~= spec_string_pairs_view(out@));
    }
    out
}

/// The mathematical values of name-value pairs.
pub open spec fn spec_string_pairs_view(pairs: Seq<(String, String)>) -> Seq<
    (Seq<char>, Seq<char>),
> {
    pairs.map_values(|p: (String, String)| (p.0@, p.1@))
}

/// Looks up the first table row with the given name.
pub fn table_get(table: &Vec<(String, String)>, key: &str) -> (r: Option<String>)
    ensures
        match r {
            Some(v) => spec_table_get(spec_string_pairs_view(table@), key@) == Some(v@),
            None => spec_table_get(spec_string_pairs_view(table@), key@) is None,
        },
{
    let kc = chars_of(key);
    let mut i: usize = 0;
    proof {
        assert(spec_string_pairs_view(table@).skip(0) =~= spec_string_pairs_view(table@));
    }
    while i < table.len()
        invariant
            i <= table.len(),
            kc@ == key@,
            spec_table_get(spec_string_pairs_view(table@), key@) == spec_table_get(
                spec_string_pairs_view(table@).skip(i as int),
                key@,
            ),
        decreases table.len() - i,
    {
        let ghost tail = spec_string_pairs_view(table@).skip(i as int);
        proof {
            assert(tail[0] == spec_string_pairs_view(table@)[i as int]);
            assert(tail.drop_first() =~= spec_string_pairs_view(table@).skip(i + 1));
        }
        let entry_key = chars_of(table[i].0.as_str());
        if crate::strutil::chars_eq(&entry_key, &kc) {
            return Some(table[i].1.clone());
        }
        i = i + 1;
    }
    None
}

/// One directory-table entry as the walkers consume it: its name, its
/// parent, and its default name with the short form before a `|` cut off.
pub open spec fn spec_directory_table(
    rows: Seq<(Option<Seq<char>>, Option<Seq<char>>, Option<Seq<char>>)>,
) -> Seq<(Seq<char>, Option<Seq<char>>, Seq<char>)>
    decreases rows.len(),
{
    if rows.len() == 0 {
        Seq::empty()
    } else {
        let head = match (rows[0].0, rows[0].2) {
            (Some(name), Some(default)) => seq![(name, rows[0].1, spec_long_dir(default))],
            _ => Seq::<(Seq<char>, Option<Seq<char>>, Seq<char>)>::empty(),
        };
        head + spec_directory_table(rows.drop_first())
    }
}

/// The long form of a default directory name: what follows the first `|`,
/// or the whole name without one.
pub open spec fn spec_long_dir(s: Seq<char>) -> Seq<char> {
    match spec_find(s, seq!['|']) {
        Some(i) => if 0 <= i < s.len() {
            s.skip(i + 1)
        } else {
            s
        },
        None => s,
    }
}

fn long_dir(s: &String) -> (r: Vec<char>)
    ensures
        r@ == spec_long_dir(s@),
{
    let cs = chars_of(s.as_str());
    let bar: Vec<char> = {
        let mut v: Vec<char> = Vec::new();
        v.push('|');
        proof {
            assert(v@ =~= seq!['|']);
        }
        v
    };
    match find_chars(&cs, &bar) {
        Some(i) => {
            proof {
                crate::strutil::lemma_find_from_props(cs@, bar@, 0);
                assert(match_at(cs@, bar@, i as int));
                assert(i + 1 <= cs.len());
            }
            let mut out: Vec<char> = Vec::new();
            let mut k: usize = i + 1;
            while k < cs.len()
                invariant
                    i + 1 <= k <= cs.len(),
                    out@ == cs@.subrange(i + 1, k as int),
                decreases cs.len() - k,
            {
                out.push(cs[k]);
                proof {
                    assert(out@ =~= cs@.subrange(i + 1, k + 1));
                }
                k = k + 1;
            }
            proof {
                assert(out@ =~= cs@.skip(i + 1));
            }
            out
        },
        None => cs,
    }
}

/// Builds the directory table out of the raw rows.
pub fn directory_table_of(rows: &Vec<(Option<String>, Option<String>, Option<String>)>) -> (r:
    Vec<(String, Option<String>, String)>)
    ensures
        spec_dir_table_view(r@) == spec_directory_table(spec_dir_rows_view(rows@)),
{
    let mut out: Vec<(String, Option<String>, String)> = Vec::new();
    let mut i: usize = 0;
    proof {
        assert(spec_dir_rows_view(rows@).skip(0) =~= spec_dir_rows_view(rows@));
        assert(spec_dir_table_view(out@) =~= Seq::<(Seq<char>, Option<Seq<char>>, Seq<char>)>::empty());
        assert(Seq::<(Seq<char>, Option<Seq<char>>, Seq<char>)>::empty() + spec_directory_table(
            spec_dir_rows_view(rows@),
        ) =~= spec_directory_table(spec_dir_rows_view(rows@)));
    }
    while i < rows.len()
        invariant
            i <= rows.len(),
            spec_directory_table(spec_dir_rows_view(rows@)) == spec_dir_table_view(out@)
                + spec_directory_table(spec_dir_rows_view(rows@).skip(i as int)),
        decreases rows.len() - i,
    {
        let ghost tail = spec_dir_rows_view(rows@).skip(i as int);
        let ghost out_entry = out@;
        proof {
            assert(tail[0] == spec_dir_rows_view(rows@)[i as int]);
            assert(tail.drop_first() =~= spec_dir_rows_view(rows@).skip(i + 1));
        }
        match (&rows[i].0, &rows[i].2) {
            (Some(name), Some(default)) => {
                let parent: Option<String> = match &rows[i].1 {
                    Some(p) => Some(p.clone()),
                    None => None,
                };
                let long = long_dir(default);
                out.push((name.clone(), parent, string_from_chars(&long)));
                proof {
                    assert(spec_dir_table_view(out@) =~= spec_dir_table_view(out_entry).push(
                        (name@, spec_opt_text(rows@[i as int].1), spec_long_dir(default@)),
                    ));
                    assert(spec_dir_table_view(out_entry) + (seq![
                        (name@, spec_opt_text(rows@[i as int].1), spec_long_dir(default@)),
                    ] + spec_directory_table(tail.drop_first())) =~= spec_dir_table_view(out@)
                        + spec_directory_table(tail.drop_first()));
                }
            },
            _ => {
                proof {
                    assert(spec_dir_table_view(out_entry) + (
                    Seq::<(Seq<char>, Option<Seq<char>>, Seq<char>)>::empty()
                        + spec_directory_table(tail.drop_first())) =~= spec_dir_table_view(
                        out_entry,
                    ) + spec_directory_table(tail.drop_first()));
                }
            },
        }
        i = i + 1;
    }
    proof {
        assert(spec_dir_rows_view(rows@).skip(rows@.len() as int)
            =~= Seq::<(Option<Seq<char>>, Option<Seq<char>>, Option<Seq<char>>)>::empty());
        assert(spec_dir_table_view(out@) + Seq::<
            (Seq<char>, Option<Seq<char>>, Seq<char>),
        >::empty() =~= spec_dir_table_view(out@));
    }
    out
}

/// The mathematical values of directory entries.
pub open spec fn spec_dir_table_view(rows: Seq<(String, Option<String>, String)>) -> Seq<
    (Seq<char>, Option<Seq<char>>, Seq<char>),
> {
    rows.map_values(
        |row: (String, Option<String>, String)| (row.0@, spec_opt_text(row.1), row.2@),
    )
}

/// The first directory entry with the given name.
pub open spec fn spec_dir_get(
    table: Seq<(Seq<char>, Option<Seq<char>>, Seq<char>)>,
    name: Seq<char>,
) -> Option<(Option<Seq<char>>, Seq<char>)>
    decreases table.len(),
{
    if table.len() == 0 {
        None
    } else if table[0].0 == name {
        Some((table[0].1, table[0].2))
    } else {
        spec_dir_get(table.drop_first(), name)
    }
}

fn dir_get(table: &Vec<(String, Option<String>, String)>, name: &Vec<char>) -> (r: Option<
    (Option<String>, String),
>)
    ensures
        match r {
            Some(entry) => spec_dir_get(spec_dir_table_view(table@), name@) == Some(
                (spec_opt_text(entry.0), entry.1@),
            ),
            None => spec_dir_get(spec_dir_table_view(table@), name@) is None,
        },
{
    let mut i: usize = 0;
    proof {
        assert(spec_dir_table_view(table@).skip(0) =~= spec_dir_table_view(table@));
    }
    while i < table.len()
        invariant
            i <= table.len(),
            spec_dir_get(spec_dir_table_view(table@), name@) == spec_dir_get(
                spec_dir_table_view(table@).skip(i as int),
                name@,
            ),
        decreases table.len() - i,
    {
        let ghost tail = spec_dir_table_view(table@).skip(i as int);
        proof {
            assert(tail[0] == spec_dir_table_view(table@)[i as int]);
            assert(tail.drop_first() =~= spec_dir_table_view(table@).skip(i + 1));
        }
        let entry_name = chars_of(table[i].0.as_str());
        if crate::strutil::chars_eq(&entry_name, name) {
            let parent: Option<String> = match &table[i].1 {
                Some(p) => Some(p.clone()),
                None => None,
            };
            return Some((parent, table[i].2.clone()));
        }
        i = i + 1;
    }
    None
}

/// The relative-path placeholder a well-known directory property stands
/// for, if it is one of the known ones.
pub open spec fn spec_property_relative_path(property: Seq<char>) -> Option<Seq<char>> {
    if property == "ProgramFiles64Folder"@ {
        Some("%ProgramFiles%"@)
    } else if property == "ProgramFilesFolder"@ {
        Some("%ProgramFiles(x86)%"@)
    } else if property == "CommonFiles64Folder"@ {
        Some("%CommonProgramFiles%"@)
    } else if property == "CommonFilesFolder"@ {
        Some("%CommonProgramFiles(x86)%"@)
    } else if property == "AppDataFolder"@ {
        Some("%AppData%"@)
    } else if property == "LocalAppDataFolder"@ {
        Some("%LocalAppData%"@)
    } else if property == "TempFolder"@ {
        Some("%Temp%"@)
    } else if property == "WindowsFolder"@ {
        Some("%WinDir%"@)
    } else {
        None
    }
}

/// Maps a well-known directory property to its relative-path placeholder.
pub fn get_property_relative_path(property: &str) -> (r: Option<&'static str>)
    ensures
        match r {
            Some(p) => spec_property_relative_path(property@) == Some(p@),
            None => spec_property_relative_path(property@) is None,
        },
{
    let cs = chars_of(property);
    if eq_lit(&cs, "ProgramFiles64Folder") {
        Some("%ProgramFiles%")
    } else if eq_lit(&cs, "ProgramFilesFolder") {
        Some("%ProgramFiles(x86)%")
    } else if eq_lit(&cs, "CommonFiles64Folder") {
        Some("%CommonProgramFiles%")
    } else if eq_lit(&cs, "CommonFilesFolder") {
        Some("%CommonProgramFiles(x86)%")
    } else if eq_lit(&cs, "AppDataFolder") {
        Some("%AppData%")
    } else if eq_lit(&cs, "LocalAppDataFolder") {
        Some("%LocalAppData%")
    } else if eq_lit(&cs, "TempFolder") {
        Some("%Temp%")
    } else if eq_lit(&cs, "WindowsFolder") {
        Some("%WinDir%")
    } else {
        None
    }
}

/// The path component a directory contributes: the placeholder its name
/// stands for, or its default name.
pub open spec fn spec_dir_component(name: Seq<char>, default: Seq<char>) -> Seq<char> {
    match spec_property_relative_path(name) {
        Some(p) => p,
        None => default,
    }
}

/// Two path pieces joined by a backslash, an empty left piece
/// contributing nothing.
pub open spec fn spec_path_join(path: Seq<char>, component: Seq<char>) -> Seq<char> {
    if path.len() == 0 {
        component
    } else {
        path + seq!['\\'] + component
    }
}

/// The path from the target root down to a directory, following parent
/// links upward through the table: empty when the directory is the target
/// itself, and nothing when the chain breaks or runs longer than the
/// table (a cycle).
pub open spec fn spec_build_directory(
    table: Seq<(Seq<char>, Option<Seq<char>>, Seq<char>)>,
    current: Seq<char>,
    target: Seq<char>,
    fuel: int,
) -> Option<Seq<char>>
    decreases fuel,
{
    if current == target {
        Some(Seq::empty())
    } else if fuel <= 0 {
        None
    } else {
        match spec_dir_get(table, current) {
            Some((Some(parent), default)) => {
                match spec_build_directory(table, parent, target, fuel - 1) {
                    Some(path) => Some(spec_path_join(path, spec_dir_component(current, default))),
                    None => None,
                }
            },
            _ => None,
        }
    }
}

/// Builds the path from the target root down to a directory.
pub fn build_directory(
    table: &Vec<(String, Option<String>, String)>,
    current: &Vec<char>,
    target: &Vec<char>,
) -> (r: Option<Vec<char>>)
    ensures
        match r {
            Some(path) => spec_build_directory(
                spec_dir_table_view(table@),
                current@,
                target@,
                table@.len() as int,
            ) == Some(path@),
            None => spec_build_directory(
                spec_dir_table_view(table@),
                current@,
                target@,
                table@.len() as int,
            ) is None,
        },
{
    build_directory_fuel(table, current, target, table.len())
}

fn build_directory_fuel(
    table: &Vec<(String, Option<String>, String)>,
    current: &Vec<char>,
    target: &Vec<char>,
    fuel: usize,
) -> (r: Option<Vec<char>>)
    ensures
        match r {
            Some(path) => spec_build_directory(
                spec_dir_table_view(table@),
                current@,
                target@,
                fuel as int,
            ) == Some(path@),
            None => spec_build_directory(
                spec_dir_table_view(table@),
                current@,
                target@,
                fuel as int,
            ) is None,
        },
    decreases fuel,
{
    if crate::strutil::chars_eq(current, target) {
        let empty: Vec<char> = Vec::new();
        return Some(empty);
    }
    if fuel == 0 {
        return None;
    }
    match dir_get(table, current) {
        Some((Some(parent), default)) => {
            let parent_chars = chars_of(parent.as_str());
            match build_directory_fuel(table, &parent_chars, target, fuel - 1) {
                Some(path) => {
                    let component: Vec<char> = {
                        let cur_string = string_from_chars(current);
                        match get_property_relative_path(cur_string.as_str()) {
                            Some(p) => chars_of(p),
                            None => chars_of(default.as_str()),
                        }
                    };
                    let mut joined: Vec<char> = Vec::new();
                    if path.len() == 0 {
                        extend_chars(&mut joined, &component);
                        proof {
                            assert(joined@ =~= spec_path_join(path@, component@));
                        }
                    } else {
                        extend_chars(&mut joined, &path);
                        joined.push('\\');
                        extend_chars(&mut joined, &component);
                        proof {
                            assert(joined@ =~= spec_path_join(path@, component@));
                        }
                    }
                    Some(joined)
                },
                None => None,
            }
        },
        _ => None,
    }
}

/// The first directory name, in table order, whose upper-cased form
/// contains the install-directory marker.
pub open spec fn spec_first_installdir_key(
    table: Seq<(Seq<char>, Option<Seq<char>>, Seq<char>)>,
) -> Option<Seq<char>>
    decreases table.len(),
{
    if table.len() == 0 {
        None
    } else if crate::strutil::spec_contains_ci(table[0].0, "INSTALLDIR"@) {
        Some(table[0].0)
    } else {
        spec_first_installdir_key(table.drop_first())
    }
}

fn first_installdir_key(table: &Vec<(String, Option<String>, String)>) -> (r: Option<Vec<char>>)
    ensures
        match r {
            Some(name) => spec_first_installdir_key(spec_dir_table_view(table@)) == Some(name@),
            None => spec_first_installdir_key(spec_dir_table_view(table@)) is None,
        },
{
    let marker = chars_of("INSTALLDIR");
    let mut i: usize = 0;
    proof {
        assert(spec_dir_table_view(table@).skip(0) =~= spec_dir_table_view(table@));
    }
    while i < table.len()
        invariant
            i <= table.len(),
            marker@ == "INSTALLDIR"@,
            spec_first_installdir_key(spec_dir_table_view(table@)) == spec_first_installdir_key(
                spec_dir_table_view(table@).skip(i as int),
            ),
        decreases table.len() - i,
    {
        let ghost tail = spec_dir_table_view(table@).skip(i as int);
        proof {
            assert(tail[0] == spec_dir_table_view(table@)[i as int]);
            assert(tail.drop_first() =~= spec_dir_table_view(table@).skip(i + 1));
        }
        let name = chars_of(table[i].0.as_str());
        if crate::strutil::contains_ci(&name, &marker) {
            return Some(name);
        }
        i = i + 1;
    }
    None
}

/// A directory name the walk-down heuristic never descends into.
pub open spec fn spec_skip_directory(name: Seq<char>) -> bool {
    name == "DesktopFolder"@ || name == "ProgramMenuFolder"@
}

/// The single child of a directory, skipping the desktop and menu
/// folders: nothing where there are none or several.
pub open spec fn spec_single_child(
    table: Seq<(Seq<char>, Option<Seq<char>>, Seq<char>)>,
    parent: Seq<char>,
) -> Option<(Seq<char>, Seq<char>)> {
    let children = spec_children(table, parent);
    if children.len() == 1 {
        Some(children[0])
    } else {
        None
    }
}

/// The children of a directory, in table order, skipping the desktop and
/// menu folders.
pub open spec fn spec_children(
    table: Seq<(Seq<char>, Option<Seq<char>>, Seq<char>)>,
    parent: Seq<char>,
) -> Seq<(Seq<char>, Seq<char>)>
    decreases table.len(),
{
    if table.len() == 0 {
        Seq::empty()
    } else {
        let head = if !spec_skip_directory(table[0].0) && table[0].1 == Some(parent) {
            seq![(table[0].0, table[0].2)]
        } else {
            Seq::<(Seq<char>, Seq<char>)>::empty()
        };
        head + spec_children(table.drop_first(), parent)
    }
}

fn children_of(table: &Vec<(String, Option<String>, String)>, parent: &Vec<char>) -> (r: Vec<
    (String, String),
>)
    ensures
        spec_string_pairs_view(r@) == spec_children(spec_dir_table_view(table@), parent@),
{
    let desktop = chars_of("DesktopFolder");
    let menu = chars_of("ProgramMenuFolder");
    let mut out: Vec<(String, String)> = Vec::new();
    let mut i: usize = 0;
    proof {
        assert(spec_dir_table_view(table@).skip(0) =~= spec_dir_table_view(table@));
        assert(spec_string_pairs_view(out@) =~= Seq::<(Seq<char>, Seq<char>)>::empty());
        assert(Seq::<(Seq<char>, Seq<char>)>::empty() + spec_children(
            spec_dir_table_view(table@),
            parent@,
        ) =~= spec_children(spec_dir_table_view(table@), parent@));
    }
    while i < table.len()
        invariant
            i <= table.len(),
            desktop@ == "DesktopFolder"@,
            menu@ == "ProgramMenuFolder"@,
            spec_children(spec_dir_table_view(table@), parent@) == spec_string_pairs_view(out@)
                + spec_children(spec_dir_table_view(table@).skip(i as int), parent@),
        decreases table.len() - i,
    {
        let ghost tail = spec_dir_table_view(table@).skip(i as int);
        let ghost out_entry = out@;
        proof {
            assert(tail[0] == spec_dir_table_view(table@)[i as int]);
            assert(tail.drop_first() =~= spec_dir_table_view(table@).skip(i + 1));
        }
        let name = chars_of(table[i].0.as_str());
        let is_skip = crate::strutil::chars_eq(&name, &desktop) || crate::strutil::chars_eq(&name, &menu);
        let parent_matches = match &table[i].1 {
            Some(p) => {
                let pc = chars_of(p.as_str());
                crate::strutil::chars_eq(&pc, parent)
            },
            None => false,
        };
        if !is_skip && parent_matches {
            out.push((table[i].0.clone(), table[i].2.clone()));
            proof {
                assert(spec_string_pairs_view(out@) =~= spec_string_pairs_view(out_entry).push(
                    (tail[0].0, tail[0].2),
                ));
                assert(spec_string_pairs_view(out_entry) + (seq![(tail[0].0, tail[0].2)]
                    + spec_children(tail.drop_first(), parent@)) =~= spec_string_pairs_view(out@)
                    + spec_children(tail.drop_first(), parent@));
            }
        } else {
            proof {
                assert(spec_opt_text(table@[i as int].1) == tail[0].1);
                assert(spec_string_pairs_view(out_entry) + (
                Seq::<(Seq<char>, Seq<char>)>::empty() + spec_children(
                    tail.drop_first(),
                    parent@,
                )) =~= spec_string_pairs_view(out_entry) + spec_children(
                    tail.drop_first(),
                    parent@,
                ));
            }
        }
        i = i + 1;
    }
    proof {
        assert(spec_dir_table_view(table@).skip(table@.len() as int)
            =~= Seq::<(Seq<char>, Option<Seq<char>>, Seq<char>)>::empty());
        assert(spec_string_pairs_view(out@) + Seq::<(Seq<char>, Seq<char>)>::empty()
            =~= spec_string_pairs_view(out@));
    }
    out
}

/// Walking down from a directory through single-child links, appending
/// each child's contributed component, until the chain forks, ends, or
/// has run longer than the table.
pub open spec fn spec_walk_down(
    table: Seq<(Seq<char>, Option<Seq<char>>, Seq<char>)>,
    current: Seq<char>,
    path: Seq<char>,
    fuel: int,
) -> Seq<char>
    decreases fuel,
{
    if fuel <= 0 {
        path
    } else {
        match spec_single_child(table, current) {
            Some((child, default)) => spec_walk_down(
                table,
                child,
                spec_path_join(path, spec_dir_component(child, default)),
                fuel - 1,
            ),
            None => path,
        }
    }
}

fn walk_down(table: &Vec<(String, Option<String>, String)>, start: &Vec<char>) -> (r: Vec<char>)
    ensures
        r@ == spec_walk_down(
            spec_dir_table_view(table@),
            start@,
            Seq::empty(),
            table@.len() as int,
        ),
{
    let mut current: Vec<char> = copy_chars(start);
    let mut path: Vec<char> = Vec::new();
    let mut fuel: usize = table.len();
    while fuel > 0
        invariant
            spec_walk_down(
                spec_dir_table_view(table@),
                start@,
                Seq::empty(),
                table@.len() as int,
            ) == spec_walk_down(spec_dir_table_view(table@), current@, path@, fuel as int),
        decreases fuel,
    {
        let kids = children_of(table, &current);
        if kids.len() == 1 {
            proof {
                assert(spec_string_pairs_view(kids@)[0] == (kids@[0].0@, kids@[0].1@));
            }
            let child = chars_of(kids[0].0.as_str());
            let component: Vec<char> = {
                match get_property_relative_path(kids[0].0.as_str()) {
                    Some(p) => chars_of(p),
                    None => chars_of(kids[0].1.as_str()),
                }
            };
            let mut joined: Vec<char> = Vec::new();
            if path.len() == 0 {
                extend_chars(&mut joined, &component);
                proof {
                    assert(joined@ =~= spec_path_join(path@, component@));
                }
            } else {
                extend_chars(&mut joined, &path);
                joined.push('\\');
                extend_chars(&mut joined, &component);
                proof {
                    assert(joined@ =~= spec_path_join(path@, component@));
                }
            }
            path = joined;
            current = child;
            fuel = fuel - 1;
        } else {
            proof {
                assert(spec_single_child(spec_dir_table_view(table@), current@) is None);
            }
            return path;
        }
    }
    path
}

fn copy_chars(v: &Vec<char>) -> (r: Vec<char>)
    ensures
        r@ == v@,
{
    let mut out: Vec<char> = Vec::new();
    let mut i: usize = 0;
    while i < v.len()
        invariant
            i <= v.len(),
            out@ == v@.take(i as int),
        decreases v.len() - i,
    {
        out.push(v[i]);
        proof {
            assert(out@ =~= v@.take(i + 1));
        }
        i = i + 1;
    }
    proof {
        assert(v@.take(v@.len() as int) =~= v@);
    }
    out
}

/// Where the package installs by default: the install directory built from
/// the dedicated entry, then from the interface's directory property, then
/// from the application-directory entry, then from any entry whose name
/// contains the marker — and as a last resort the walk down single-child
/// links from the root, kept only if it finds anything.
pub open spec fn spec_find_install_directory(
    dirs: Seq<(Seq<char>, Option<Seq<char>>, Seq<char>)>,
    props: Seq<(Seq<char>, Seq<char>)>,
) -> Option<Seq<char>> {
    let fuel = dirs.len() as int;
    match spec_build_directory(dirs, "INSTALLDIR"@, "TARGETDIR"@, fuel) {
        Some(p) => Some(p),
        None => match (match spec_table_get(props, "WIXUI_INSTALLDIR"@) {
            Some(w) => spec_build_directory(dirs, w, "TARGETDIR"@, fuel),
            None => None,
        }) {
            Some(p) => Some(p),
            None => match spec_build_directory(dirs, "APPDIR"@, "TARGETDIR"@, fuel) {
                Some(p) => Some(p),
                None => match (match spec_first_installdir_key(dirs) {
                    Some(key) => spec_build_directory(dirs, key, "TARGETDIR"@, fuel),
                    None => None,
                }) {
                    Some(p) => Some(p),
                    None => {
                        let walked = spec_walk_down(dirs, "TARGETDIR"@, Seq::empty(), fuel);
                        if walked.len() > 0 {
                            Some(walked)
                        } else {
                            None
                        }
                    },
                },
            },
        },
    }
}

/// Finds the default install directory.
pub fn find_install_directory(
    dirs: &Vec<(String, Option<String>, String)>,
    props: &Vec<(String, String)>,
) -> (r: Option<String>)
    ensures
        match r {
            Some(p) => spec_find_install_directory(
                spec_dir_table_view(dirs@),
                spec_string_pairs_view(props@),
            ) == Some(p@),
            None => spec_find_install_directory(
                spec_dir_table_view(dirs@),
                spec_string_pairs_view(props@),
            ) is None,
        },
{
    let installdir = chars_of("INSTALLDIR");
    let targetdir = chars_of("TARGETDIR");
    let appdir = chars_of("APPDIR");
    match build_directory(dirs, &installdir, &targetdir) {
        Some(p) => {
            return Some(string_from_chars(&p));
        },
        None => {},
    }
    match table_get(props, "WIXUI_INSTALLDIR") {
        Some(w) => {
            let wc = chars_of(w.as_str());
            match build_directory(dirs, &wc, &targetdir) {
                Some(p) => {
                    return Some(string_from_chars(&p));
                },
                None => {},
            }
        },
        None => {},
    }
    match build_directory(dirs, &appdir, &targetdir) {
        Some(p) => {
            return Some(string_from_chars(&p));
        },
        None => {},
    }
    match first_installdir_key(dirs) {
        Some(key) => {
            match build_directory(dirs, &key, &targetdir) {
                Some(p) => {
                    return Some(string_from_chars(&p));
                },
                None => {},
            }
        },
        None => {},
    }
    let walked = walk_down(dirs, &targetdir);
    if walked.len() > 0 {
        Some(string_from_chars(&walked))
    } else {
        None
    }
}

/// The value of a text that parses as a 16-bit integer: an optional
/// leading plus sign, then at least one digit, value at most the 16-bit
/// maximum.
pub open spec fn spec_parse_u16(s: Seq<char>) -> Option<u16> {
    let t = if s.len() > 0 && s[0] == '+' {
        s.drop_first()
    } else {
        s
    };
    if t.len() > 0 && crate::release_notes::spec_all_digits(t) && crate::release_notes::spec_dec_value(t) <= 0xFFFF {
        Some(crate::release_notes::spec_dec_value(t) as u16)
    } else {
        None
    }
}

/// Parses a 16-bit integer.
pub fn parse_u16(chars: &Vec<char>) -> (r: Option<u16>)
    ensures
        r == spec_parse_u16(chars@),
{
    let start: usize = if chars.len() > 0 && chars[0] == '+' {
        1
    } else {
        0
    };
    let ghost t = if chars@.len() > 0 && chars@[0] == '+' {
        chars@.drop_first()
    } else {
        chars@
    };
    proof {
        if start == 1 {
            assert(t =~= chars@.skip(1));
        } else {
            assert(t =~= chars@.skip(0));
        }
    }
    if chars.len() == start {
        return None;
    }
    let mut value: u32 = 0;
    let mut i: usize = start;
    while i < chars.len()
        invariant
            start <= i <= chars.len(),
            start == 1 <==> chars@.len() > 0 && chars@[0] == '+',
            t == (if chars@.len() > 0 && chars@[0] == '+' {
                chars@.drop_first()
            } else {
                chars@
            }),
            t == chars@.skip(start as int),
            t.len() == chars@.len() - start,
            crate::release_notes::spec_all_digits(t.take(i - start)),
            value == crate::release_notes::spec_dec_value(t.take(i - start)),
            value <= 0xFFFF,
        decreases chars.len() - i,
    {
        let c = chars[i];
        proof {
            assert(t[i - start] == chars@[i as int]);
        }
        if c < '0' || c > '9' {
            proof {
                assert(!crate::release_notes::spec_all_digits(t));
            }
            return None;
        }
        let d = (c as u32) - 0x30;
        let ghost k = i - start + 1;
        proof {
            assert(t.take(k).drop_last() =~= t.take(i - start));
            assert(t.take(k)[k - 1] == chars@[i as int]);
            assert(crate::release_notes::spec_dec_value(t.take(k)) == value * 10 + d);
            assert(crate::release_notes::spec_all_digits(t.take(k))) by {
                assert(forall|m: int| 0 <= m < k ==> #[trigger] t.take(k)[m] == t[m]);
            }
        }
        if value > 0xFFFF / 10 || (value == 0xFFFF / 10 && d > 0xFFFF % 10) {
            proof {
                assert(crate::release_notes::spec_dec_value(t.take(k)) > 0xFFFF);
                lemma_u16_value_grows(t, k);
            }
            return None;
        }
        value = value * 10 + d;
        i = i + 1;
    }
    proof {
        assert(t.take(t.len() as int) =~= t);
    }
    Some(value as u16)
}

proof fn lemma_u16_value_grows(t: Seq<char>, k: int)
    requires
        0 < k <= t.len(),
        crate::release_notes::spec_all_digits(t.take(k)),
        crate::release_notes::spec_dec_value(t.take(k)) > 0xFFFF,
    ensures
        crate::release_notes::spec_all_digits(t) ==> crate::release_notes::spec_dec_value(t)
            > 0xFFFF,
    decreases t.len() - k,
{
    if k == t.len() {
        assert(t.take(k) =~= t);
    } else {
        if crate::release_notes::spec_all_digits(t) {
            assert(t.take(k + 1).drop_last() =~= t.take(k));
            assert('0' <= t.take(k + 1)[k] <= '9');
            assert(crate::release_notes::spec_dec_value(t.take(k + 1))
                >= crate::release_notes::spec_dec_value(t.take(k)) * 10);
            assert(crate::release_notes::spec_all_digits(t.take(k + 1))) by {
                assert(forall|i: int| 0 <= i < k + 1 ==> #[trigger] t.take(k + 1)[i] == t[i]);
            }
            lemma_u16_value_grows(t, k + 1);
        }
    }
}

/// The character is ASCII white space.
pub open spec fn spec_is_ascii_ws(c: char) -> bool {
    c == ' ' || c == '\t' || c == '\n' || c == '\r' || c == '\x0c'
}

/// The first ASCII-whitespace-separated token of a text, if any.
pub open spec fn spec_first_token(s: Seq<char>) -> Option<Seq<char>>
    decreases s.len(),
{
    if s.len() == 0 {
        None
    } else if spec_is_ascii_ws(s[0]) {
        spec_first_token(s.drop_first())
    } else {
        Some(spec_token_run(s))
    }
}

/// The leading run of non-white-space characters.
pub open spec fn spec_token_run(s: Seq<char>) -> Seq<char>
    decreases s.len(),
{
    if s.len() == 0 || spec_is_ascii_ws(s[0]) {
        Seq::empty()
    } else {
        seq![s[0]] + spec_token_run(s.drop_first())
    }
}

fn first_token(chars: &Vec<char>) -> (r: Option<Vec<char>>)
    ensures
        match r {
            Some(tok) => spec_first_token(chars@) == Some(tok@),
            None => spec_first_token(chars@) is None,
        },
{
    let mut i: usize = 0;
    proof {
        assert(chars@.skip(0) =~= chars@);
    }
    while i < chars.len() && is_ascii_ws(chars[i])
        invariant
            i <= chars.len(),
            spec_first_token(chars@) == spec_first_token(chars@.skip(i as int)),
        decreases chars.len() - i,
    {
        proof {
            assert(chars@.skip(i as int).drop_first() =~= chars@.skip(i + 1));
        }
        i = i + 1;
    }
    if i == chars.len() {
        return None;
    }
    let mut tok: Vec<char> = Vec::new();
    let ghost t0 = chars@.skip(i as int);
    let mut j: usize = i;
    while j < chars.len() && !is_ascii_ws(chars[j])
        invariant
            i <= j <= chars.len(),
            t0 == chars@.skip(i as int),
            tok@ == chars@.subrange(i as int, j as int),
            spec_token_run(t0) == tok@ + spec_token_run(chars@.skip(j as int)),
        decreases chars.len() - j,
    {
        tok.push(chars[j]);
        proof {
            assert(tok@ =~= chars@.subrange(i as int, j + 1));
            assert(chars@.skip(j as int).drop_first() =~= chars@.skip(j + 1));
            assert(chars@.skip(j as int)[0] == chars@[j as int]);
            assert(spec_token_run(chars@.skip(j as int)) == seq![chars@[j as int]]
                + spec_token_run(chars@.skip(j + 1)));
            assert(chars@.subrange(i as int, j as int) + (seq![chars@[j as int]]
                + spec_token_run(chars@.skip(j + 1))) =~= chars@.subrange(i as int, j + 1)
                + spec_token_run(chars@.skip(j + 1)));
        }
        j = j + 1;
    }
    proof {
        if j < chars@.len() {
            assert(chars@.skip(j as int)[0] == chars@[j as int]);
            assert(spec_token_run(chars@.skip(j as int)) =~= Seq::<char>::empty());
        } else {
            assert(chars@.skip(j as int) =~= Seq::<char>::empty());
        }
        assert(tok@ + Seq::<char>::empty() =~= tok@);
        assert(chars@.skip(i as int)[0] == chars@[i as int]);
    }
    Some(tok)
}

fn is_ascii_ws(c: char) -> (r: bool)
    ensures
        r == spec_is_ascii_ws(c),
{
    c == ' ' || c == '\t' || c == '\n' || c == '\r' || c == '\x0c'
}

/// Every period-separated part of the token parses as a 16-bit integer.
pub open spec fn spec_is_dotted_u16(tok: Seq<char>) -> bool {
    let parts = crate::release_notes::spec_split(tok, '.');
    forall|i: int| 0 <= i < parts.len() ==> spec_parse_u16(#[trigger] parts[i]) is Some
}

/// The actual product version hidden in the summary comments: certain
/// publishers translate the property-table version, and the real one is
/// the comments' first token when it is a dotted run of small numbers.
pub open spec fn spec_chrome_version(comments: Option<Seq<char>>) -> Option<Seq<char>> {
    match comments {
        Some(c) => match spec_first_token(c) {
            Some(tok) => if spec_is_dotted_u16(tok) {
                Some(tok)
            } else {
                None
            },
            None => None,
        },
        None => None,
    }
}

/// Extracts the actual product version from the summary comments.
pub fn actual_version_from_comments(comments: &Option<String>) -> (r: Option<String>)
    ensures
        match r {
            Some(v) => spec_chrome_version(spec_opt_text(*comments)) == Some(v@),
            None => spec_chrome_version(spec_opt_text(*comments)) is None,
        },
{
    match comments {
        Some(c) => {
            let cs = chars_of(c.as_str());
            match first_token(&cs) {
                Some(tok) => {
                    let parts = crate::release_notes::split_char(&tok, '.');
                    let mut i: usize = 0;
                    while i < parts.len()
                        invariant
                            i <= parts.len(),
                            cs@ == c@,
                            spec_opt_text(*comments) == Some(c@),
                            spec_first_token(c@) == Some(tok@),
                            forall|j: int|
                                0 <= j < i ==> spec_parse_u16(
                                    #[trigger] crate::release_notes::spec_lines_view(parts@)[j],
                                ) is Some,
                            crate::release_notes::spec_lines_view(parts@)
                                == crate::release_notes::spec_split(tok@, '.'),
                        decreases parts.len() - i,
                    {
                        proof {
                            assert(crate::release_notes::spec_lines_view(parts@)[i as int]
                                == parts@[i as int]@);
                        }
                        if parse_u16(&parts[i]).is_none() {
                            proof {
                                assert(spec_parse_u16(
                                    crate::release_notes::spec_split(tok@, '.')[i as int],
                                ) is None);
                                assert(!spec_is_dotted_u16(tok@));
                            }
                            return None;
                        }
                        i = i + 1;
                    }
                    proof {
                        assert(spec_is_dotted_u16(tok@));
                    }
                    Some(string_from_chars(&tok))
                },
                None => None,
            }
        },
        None => None,
    }
}

/// Some property name or value contains the toolset's name,
/// case-insensitively, at or after row `i`.
pub open spec fn spec_any_wix_row(table: Seq<(Seq<char>, Seq<char>)>, i: int) -> bool
    decreases table.len() - i,
{
    if i < 0 || i >= table.len() {
        false
    } else {
        crate::strutil::spec_contains_ci(table[i].0, "Wix"@) || crate::strutil::spec_contains_ci(
            table[i].1,
            "Wix"@,
        ) || spec_any_wix_row(table, i + 1)
    }
}

/// The package was produced by the well-known XML toolset: its creating
/// application names the toolset, or some property name or value contains
/// the toolset's name, case-insensitively.
pub open spec fn spec_is_wix(
    creating_application: Option<Seq<char>>,
    table: Seq<(Seq<char>, Seq<char>)>,
) -> bool {
    (match creating_application {
        Some(app) => crate::strutil::spec_contains_ci(app, "Wix"@) || crate::strutil::spec_contains_ci(
            app,
            "Windows Installer XML"@,
        ),
        None => false,
    }) || spec_any_wix_row(table, 0)
}

/// Decides whether the package was produced by the well-known XML toolset.
pub fn is_wix(creating_application: &Option<String>, table: &Vec<(String, String)>) -> (r: bool)
    ensures
        r == spec_is_wix(spec_opt_text(*creating_application), spec_string_pairs_view(table@)),
{
    let wix = chars_of("Wix");
    let long = chars_of("Windows Installer XML");
    match creating_application {
        Some(app) => {
            let ac = chars_of(app.as_str());
            if crate::strutil::contains_ci(&ac, &wix) || crate::strutil::contains_ci(&ac, &long) {
                return true;
            }
        },
        None => {},
    }
    let mut i: usize = 0;
    while i < table.len()
        invariant
            i <= table.len(),
            wix@ == "Wix"@,
            !(match spec_opt_text(*creating_application) {
                Some(app) => crate::strutil::spec_contains_ci(app, "Wix"@)
                    || crate::strutil::spec_contains_ci(app, "Windows Installer XML"@),
                None => false,
            }),
            spec_any_wix_row(spec_string_pairs_view(table@), 0) == spec_any_wix_row(
                spec_string_pairs_view(table@),
                i as int,
            ),
        decreases table.len() - i,
    {
        proof {
            assert(spec_string_pairs_view(table@)[i as int] == (table@[i as int].0@, table@[
                i as int].1@));
        }
        let kc = chars_of(table[i].0.as_str());
        let vc = chars_of(table[i].1.as_str());
        if crate::strutil::contains_ci(&kc, &wix) || crate::strutil::contains_ci(&vc, &wix) {
            proof {
                assert(spec_any_wix_row(spec_string_pairs_view(table@), i as int));
            }
            return true;
        }
        i = i + 1;
    }
    false
}

/// A fully read package: its one normalized installer record.
pub struct Msi {
    pub installer: Installer,
}

/// What synthesis yields from the read-out package parts: the normalized
/// installer record, or the unknown-architecture error.
pub open spec fn spec_msi_synthesize(
    arch: Option<Seq<char>>,
    creating_application: Option<Seq<char>>,
    comments: Option<Seq<char>>,
    prop_rows: Seq<(Option<Seq<char>>, Option<Seq<char>>)>,
    dir_rows: Seq<(Option<Seq<char>>, Option<Seq<char>>, Option<Seq<char>>)>,
    control: Option<Seq<Option<Seq<char>>>>,
) -> Result<InstallerV, MsiErrorS> {
    match spec_arch_of(arch) {
        Err(s) => Err(MsiErrorS::UnknownArchitecture(s)),
        Ok(architecture) => {
            let props = spec_property_table(prop_rows);
            let dirs = spec_directory_table(dir_rows);
            let product_name = spec_table_get(props, "ProductName"@);
            let manufacturer = spec_table_get(props, "Manufacturer"@);
            let product_version = if product_name == Some("Google Chrome"@) {
                spec_chrome_version(comments)
            } else {
                spec_table_get(props, "ProductVersion"@)
            };
            let product_code = spec_table_get(props, "ProductCode"@);
            let upgrade_code = spec_table_get(props, "UpgradeCode"@);
            let scope = match spec_table_get(props, "ALLUSERS"@) {
                Some(v) => if v == "1"@ {
                    Some(Scope::Machine)
                } else if v == "2"@ {
                    None
                } else if v.len() == 0 {
                    Some(Scope::User)
                } else {
                    spec_control_scope(control)
                },
                None => spec_control_scope(control),
            };
            let locale = match spec_table_get(props, "ProductLanguage"@) {
                Some(code) => match spec_parse_u16(code) {
                    Some(v) => Some(spec_lang_tag(v)),
                    None => None,
                },
                None => None,
            };
            let wix = spec_is_wix(creating_application, props);
            let has_entry = product_name is Some || manufacturer is Some || product_version
                is Some || upgrade_code is Some;
            Ok(
                InstallerV {
                    locale,
                    architecture: Some(architecture),
                    installer_type: if wix {
                        Some(InstallerType::Wix)
                    } else {
                        Some(InstallerType::Msi)
                    },
                    scope,
                    product_code,
                    unsupported_os_architectures: None,
                    apps_and_features_entries: if has_entry {
                        Some(
                            seq![
                                crate::manifest::AppsAndFeaturesEntryV {
                                    display_name: product_name,
                                    publisher: manufacturer,
                                    display_version: product_version,
                                    product_code,
                                    upgrade_code,
                                },
                            ],
                        )
                    } else {
                        None
                    },
                    elevation_requirement: None,
                    installation_metadata: Some(
                        crate::manifest::InstallationMetadataV {
                            default_install_location: spec_find_install_directory(dirs, props),
                        },
                    ),
                    switches: None,
                },
            )
        },
    }
}

/// The scope the control table implies where the all-users property does
/// not settle it: a package whose interface can change the property at run
/// time leaves the scope open; anything else installs per-user.
pub open spec fn spec_control_scope(control: Option<Seq<Option<Seq<char>>>>) -> Option<Scope> {
    match control {
        Some(props) => if spec_any_allusers(props, 0) {
            None
        } else {
            Some(Scope::User)
        },
        None => Some(Scope::User),
    }
}

/// Some control row names the all-users property, at or after row `i`.
pub open spec fn spec_any_allusers(props: Seq<Option<Seq<char>>>, i: int) -> bool
    decreases props.len() - i,
{
    if i < 0 || i >= props.len() {
        false
    } else {
        props[i] == Some("ALLUSERS"@) || spec_any_allusers(props, i + 1)
    }
}

fn control_scope(control: &Option<Vec<Option<String>>>) -> (r: Option<Scope>)
    ensures
        r == spec_control_scope(
            match control {
                Some(rows) => Some(spec_opt_rows_view(rows@)),
                None => None,
            },
        ),
{
    match control {
        Some(rows) => {
            let allusers = chars_of("ALLUSERS");
            let mut i: usize = 0;
            while i < rows.len()
                invariant
                    i <= rows.len(),
                    allusers@ == "ALLUSERS"@,
                    *control is Some,
                    control->0@ == rows@,
                    spec_any_allusers(spec_opt_rows_view(rows@), 0) == spec_any_allusers(
                        spec_opt_rows_view(rows@),
                        i as int,
                    ),
                decreases rows.len() - i,
            {
                proof {
                    assert(spec_opt_rows_view(rows@)[i as int] == spec_opt_text(rows@[i as int]));
                }
                match &rows[i] {
                    Some(p) => {
                        let pc = chars_of(p.as_str());
                        if crate::strutil::chars_eq(&pc, &allusers) {
                            proof {
                                assert(spec_any_allusers(spec_opt_rows_view(rows@), i as int));
                            }
                            return None;
                        }
                    },
                    None => {},
                }
                i = i + 1;
            }
            Some(Scope::User)
        },
        None => Some(Scope::User),
    }
}

/// Synthesizes the normalized installer record out of the read-out
/// package parts.
pub fn synthesize_installer(
    arch: Option<String>,
    creating_application: Option<String>,
    comments: Option<String>,
    prop_rows: &Vec<(Option<String>, Option<String>)>,
    dir_rows: &Vec<(Option<String>, Option<String>, Option<String>)>,
    control: Option<Vec<Option<String>>>,
) -> (r: Result<Msi, MsiError>)
    ensures
        match r {
            Ok(m) => spec_msi_synthesize(
                spec_opt_text(arch),
                spec_opt_text(creating_application),
                spec_opt_text(comments),
                spec_prop_rows_view(prop_rows@),
                spec_dir_rows_view(dir_rows@),
                match control {
                    Some(rows) => Some(spec_opt_rows_view(rows@)),
                    None => None,
                },
            ) == Ok::<InstallerV, MsiErrorS>(m.installer@),
            Err(e) => spec_msi_synthesize(
                spec_opt_text(arch),
                spec_opt_text(creating_application),
                spec_opt_text(comments),
                spec_prop_rows_view(prop_rows@),
                spec_dir_rows_view(dir_rows@),
                match control {
                    Some(rows) => Some(spec_opt_rows_view(rows@)),
                    None => None,
                },
            ) == Err::<InstallerV, MsiErrorS>(e@),
        },
{
    let architecture = match arch_of(&arch) {
        Ok(a) => a,
        Err(s) => {
            return Err(MsiError::UnknownArchitecture(s));
        },
    };
    let props = property_table_of(prop_rows);
    let dirs = directory_table_of(dir_rows);
    let product_name = table_get(&props, "ProductName");
    let manufacturer = table_get(&props, "Manufacturer");
    let is_chrome = match &product_name {
        Some(n) => {
            let nc = chars_of(n.as_str());
            eq_lit(&nc, "Google Chrome")
        },
        None => false,
    };
    let product_version = if is_chrome {
        actual_version_from_comments(&comments)
    } else {
        table_get(&props, "ProductVersion")
    };
    let product_code = table_get(&props, "ProductCode");
    let upgrade_code = table_get(&props, "UpgradeCode");
    let scope = match table_get(&props, "ALLUSERS") {
        Some(v) => {
            let vc = chars_of(v.as_str());
            if eq_lit(&vc, "1") {
                Some(Scope::Machine)
            } else if eq_lit(&vc, "2") {
                None
            } else if vc.len() == 0 {
                proof {
                    assert(vc@.len() == 0);
                }
                Some(Scope::User)
            } else {
                control_scope(&control)
            }
        },
        None => control_scope(&control),
    };
    let locale = match table_get(&props, "ProductLanguage") {
        Some(code) => {
            let cc = chars_of(code.as_str());
            match parse_u16(&cc) {
                Some(v) => Some(language_tag(v)),
                None => None,
            }
        },
        None => None,
    };
    let wix = is_wix(&creating_application, &props);
    let has_entry = product_name.is_some() || manufacturer.is_some() || product_version.is_some()
        || upgrade_code.is_some();
    let apps: Option<Vec<AppsAndFeaturesEntry>> = if has_entry {
        let entry = AppsAndFeaturesEntry {
            display_name: clone_opt(&product_name),
            publisher: clone_opt(&manufacturer),
            display_version: clone_opt(&product_version),
            product_code: clone_opt(&product_code),
            upgrade_code: clone_opt(&upgrade_code),
        };
        let mut v: Vec<AppsAndFeaturesEntry> = Vec::new();
        v.push(entry);
        Some(v)
    } else {
        None
    };
    let installer = Installer {
        locale,
        architecture: Some(architecture),
        installer_type: if wix {
            Some(InstallerType::Wix)
        } else {
            Some(InstallerType::Msi)
        },
        scope,
        product_code,
        unsupported_os_architectures: None,
        apps_and_features_entries: apps,
        elevation_requirement: None,
        installation_metadata: Some(
            InstallationMetadata {
                default_install_location: find_install_directory(&dirs, &props),
            },
        ),
        switches: None,
    };
    let m = Msi { installer };
    proof {
        let spec_r = spec_msi_synthesize(
            spec_opt_text(arch),
            spec_opt_text(creating_application),
            spec_opt_text(comments),
            spec_prop_rows_view(prop_rows@),
            spec_dir_rows_view(dir_rows@),
            match control {
                Some(rows) => Some(spec_opt_rows_view(rows@)),
                None => None,
            },
        );
        assert(m.installer@.apps_and_features_entries == spec_r->Ok_0.apps_and_features_entries)
            by {
            if has_entry {
                assert(m.installer@.apps_and_features_entries->0
                    =~= spec_r->Ok_0.apps_and_features_entries->0);
            }
        }
    }
    Ok(m)
}

fn clone_opt(o: &Option<String>) -> (r: Option<String>)
    ensures
        spec_opt_text(r) == spec_opt_text(*o),
{
    match o {
        Some(s) => Some(s.clone()),
        None => None,
    }
}

/// What reading a whole package out of its bytes yields: the bytes must
/// open as a package, the property and directory tables must be readable,
/// and the declared architecture must be a known one; then the record is
/// the synthesis of the named contents of the bytes.
pub open spec fn spec_msi_new(data: Seq<u8>) -> Result<InstallerV, MsiErrorS> {
    if !spec_msi_opens(data) {
        Err(MsiErrorS::OpenFailure)
    } else {
        match (spec_msi_property_rows_of(data), spec_msi_directory_rows_of(data)) {
            (Some(prop_rows), Some(dir_rows)) => spec_msi_synthesize(
                spec_msi_arch_of(data),
                spec_msi_creating_application_of(data),
                spec_msi_comments_of(data),
                prop_rows,
                dir_rows,
                spec_msi_control_properties_of(data),
            ),
            _ => Err(MsiErrorS::QueryFailure),
        }
    }
}

impl Msi {
    /// Reads a package out of in-memory bytes and synthesizes its
    /// normalized installer record: exactly the record the named contents
    /// of the bytes synthesize to, an open failure where the bytes are not
    /// a package, a query failure where the property or directory table is
    /// unreadable, and the unknown-architecture error where the summary
    /// names one this reader does not know.
    pub fn new(data: &[u8]) -> (r: Result<Msi, MsiError>)
        ensures
            match r {
                Ok(m) => spec_msi_new(data@) == Ok::<InstallerV, MsiErrorS>(m.installer@),
                Err(e) => spec_msi_new(data@) == Err::<InstallerV, MsiErrorS>(e@),
            },
    {
        let mut package = match open_package(data) {
            Ok(p) => p,
            Err(_) => {
                return Err(MsiError::OpenFailure);
            },
        };
        let ghost p0 = package;
        let arch = package_arch(&package);
        let creating_application = package_creating_application(&package);
        let comments = package_comments(&package);
        proof {
            assert(spec_opt_text(arch) == spec_msi_arch_of(data@));
            assert(spec_opt_text(creating_application) == spec_msi_creating_application_of(
                data@,
            ));
            assert(spec_opt_text(comments) == spec_msi_comments_of(data@));
        }
        let prop_rows = match select_property_rows(&mut package) {
            Ok(rows) => rows,
            Err(_) => {
                proof {
                    assert(spec_msi_property_rows_of(data@) is None);
                }
                return Err(MsiError::QueryFailure);
            },
        };
        let dir_rows = match select_directory_rows(&mut package) {
            Ok(rows) => rows,
            Err(_) => {
                proof {
                    assert(spec_msi_directory_rows_of(data@) is None);
                }
                return Err(MsiError::QueryFailure);
            },
        };
        let control = match select_control_properties(&mut package) {
            Ok(rows) => Some(rows),
            Err(_) => None,
        };
        proof {
            assert(spec_msi_property_rows_of(data@) == Some(spec_prop_rows_view(prop_rows@)));
            assert(spec_msi_directory_rows_of(data@) == Some(spec_dir_rows_view(dir_rows@)));
            assert(spec_msi_control_properties_of(data@) == (match control {
                Some(rows) => Some(spec_opt_rows_view(rows@)),
                None => None::<Seq<Option<Seq<char>>>>,
            }));
        }
        match synthesize_installer(
            arch,
            creating_application,
            comments,
            &prop_rows,
            &dir_rows,
            control,
        ) {
            Ok(m) => Ok(m),
            Err(e) => Err(e),
        }
    }

    /// Reads the property table as name-value pairs: owed exactly where
    /// the package's property table is readable.
    pub fn get_property_table(package: &mut msi::Package<std::io::Cursor<Vec<u8>>>) -> (r: Result<
        Vec<(String, String)>,
        MsiError,
    >)
        ensures
            spec_msi_contents_unchanged(*old(package), *final(package)),
            r is Ok <==> spec_msi_property_rows(*old(package)) is Some,
            match r {
                Ok(table) => spec_string_pairs_view(table@) == spec_property_table(
                    spec_msi_property_rows(*old(package))->0,
                ),
                Err(e) => e@ == MsiErrorS::QueryFailure,
            },
    {
        match select_property_rows(package) {
            Ok(rows) => Ok(property_table_of(&rows)),
            Err(_) => Err(MsiError::QueryFailure),
        }
    }

    /// Reads the directory table as name, parent and long default name:
    /// owed exactly where the package's directory table is readable.
    pub fn get_directory_table(package: &mut msi::Package<std::io::Cursor<Vec<u8>>>) -> (r:
        Result<Vec<(String, Option<String>, String)>, MsiError>)
        ensures
            spec_msi_contents_unchanged(*old(package), *final(package)),
            r is Ok <==> spec_msi_directory_rows(*old(package)) is Some,
            match r {
                Ok(table) => spec_dir_table_view(table@) == spec_directory_table(
                    spec_msi_directory_rows(*old(package))->0,
                ),
                Err(e) => e@ == MsiErrorS::QueryFailure,
            },
    {
        match select_directory_rows(package) {
            Ok(rows) => Ok(directory_table_of(&rows)),
            Err(_) => Err(MsiError::QueryFailure),
        }
    }

    /// Decides whether the package was produced by the well-known XML
    /// toolset, by its summary information and its property table.
    pub fn is_wix(
        package: &msi::Package<std::io::Cursor<Vec<u8>>>,
        property_table: &Vec<(String, String)>,
    ) -> (r: bool)
        ensures
            r == spec_is_wix(
                spec_msi_creating_application(*package),
                spec_string_pairs_view(property_table@),
            ),
    {
        let creating_application = package_creating_application(package);
        is_wix(&creating_application, property_table)
    }

    /// The actual product version out of the summary comments, for
    /// publishers that translate the property-table version.
    pub fn get_actual_chrome_version(package: &msi::Package<std::io::Cursor<Vec<u8>>>) -> (r:
        Option<String>)
        ensures
            match r {
                Some(v) => spec_chrome_version(spec_msi_comments(*package)) == Some(v@),
                None => spec_chrome_version(spec_msi_comments(*package)) is None,
            },
    {
        let comments = package_comments(package);
        actual_version_from_comments(&comments)
    }

    /// Maps a well-known directory property to its relative-path
    /// placeholder.
    pub fn get_property_relative_path(property: &str) -> (r: Option<&'static str>)
        ensures
            match r {
                Some(p) => spec_property_relative_path(property@) == Some(p@),
                None => spec_property_relative_path(property@) is None,
            },
    {
        get_property_relative_path(property)
    }
}

} // verus!
