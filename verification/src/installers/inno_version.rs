//! The registry of known setup-data versions. The container names its format
//! with a fixed-length ASCII byte run; only byte runs found in the table
//! below are accepted, and every later parsing decision is gated on the
//! version the run maps to.

use vstd::prelude::*;
use crate::strutil::push_char;

verus! {

/// A format version: an ordered triple plus a revision discriminator for
/// lettered re-releases. The order is lexicographic over the four fields.
#[derive(Clone, Copy, PartialEq, Eq, Structural, Debug)]
pub struct InnoVersion {
    pub major: u8,
    pub minor: u8,
    pub patch: u8,
    pub revision: u8,
}

/// A version found in the registry, together with whether its string table
/// is encoded as 16-bit text.
#[derive(Clone, Copy, PartialEq, Eq, Structural, Debug)]
pub struct KnownVersion {
    pub version: InnoVersion,
    pub unicode: bool,
}

/// Strict lexicographic order over (major, minor, patch, revision).
pub open spec fn spec_version_lt(a: InnoVersion, b: InnoVersion) -> bool {
    a.major < b.major || (a.major == b.major && (a.minor < b.minor || (a.minor == b.minor && (
    a.patch < b.patch || (a.patch == b.patch && a.revision < b.revision)))))
}

/// Strict lexicographic order over (major, minor, patch) alone, which the
/// field-layout gates compare against.
pub open spec fn spec_triple_lt(a: (u8, u8, u8), b: (u8, u8, u8)) -> bool {
    a.0 < b.0 || (a.0 == b.0 && (a.1 < b.1 || (a.1 == b.1 && a.2 < b.2)))
}

impl InnoVersion {
    pub open spec fn triple(&self) -> (u8, u8, u8) {
        (self.major, self.minor, self.patch)
    }

    pub fn new(major: u8, minor: u8, patch: u8, revision: u8) -> (r: InnoVersion)
        ensures
            r == (InnoVersion { major, minor, patch, revision }),
    {
        InnoVersion { major, minor, patch, revision }
    }

    /// `self < other` in the total version order.
    pub fn lt(&self, other: &InnoVersion) -> (r: bool)
        ensures
            r == spec_version_lt(*self, *other),
    {
        self.major < other.major || (self.major == other.major && (self.minor < other.minor || (
        self.minor == other.minor && (self.patch < other.patch || (self.patch == other.patch
            && self.revision < other.revision)))))
    }

    /// `self > other` in the total version order.
    pub fn gt(&self, other: &InnoVersion) -> (r: bool)
        ensures
            r == spec_version_lt(*other, *self),
    {
        other.lt(self)
    }

    /// `self` comes after the bare triple `(major, minor, patch)`.
    pub fn after_triple(&self, major: u8, minor: u8, patch: u8) -> (r: bool)
        ensures
            r == spec_triple_lt((major, minor, patch), self.triple()),
    {
        major < self.major || (major == self.major && (minor < self.minor || (minor == self.minor
            && patch < self.patch)))
    }

    /// `self` comes before the bare triple `(major, minor, patch)`.
    pub fn before_triple(&self, major: u8, minor: u8, patch: u8) -> (r: bool)
        ensures
            r == spec_triple_lt(self.triple(), (major, minor, patch)),
    {
        self.major < major || (self.major == major && (self.minor < minor || (self.minor == minor
            && self.patch < patch)))
    }

    /// `self` is the bare triple or comes after it.
    pub fn at_least_triple(&self, major: u8, minor: u8, patch: u8) -> (r: bool)
        ensures
            r == !spec_triple_lt(self.triple(), (major, minor, patch)),
    {
        !self.before_triple(major, minor, patch)
    }
}

/// The version order is transitive.
pub proof fn lemma_version_order_transitive(a: InnoVersion, b: InnoVersion, c: InnoVersion)
    requires
        spec_version_lt(a, b),
        spec_version_lt(b, c),
    ensures
        spec_version_lt(a, c),
{
}

/// The version order is consistent: of two versions, exactly one of
/// "before", "after" and "equal" holds.
pub proof fn lemma_version_order_total(a: InnoVersion, b: InnoVersion)
    ensures
        spec_version_lt(a, b) || spec_version_lt(b, a) || a == b,
        !(spec_version_lt(a, b) && spec_version_lt(b, a)),
        spec_version_lt(a, b) ==> a != b,
        spec_version_lt(b, a) ==> a != b,
{
}

/// The newest version this implementation understands; anything later is
/// rejected before any further parsing.
pub open spec fn spec_max_supported_version() -> InnoVersion {
    InnoVersion { major: 6, minor: 4, patch: 255, revision: 0 }
}

pub fn max_supported_version() -> (r: InnoVersion)
    ensures
        r == spec_max_supported_version(),
{
    InnoVersion { major: 6, minor: 4, patch: 255, revision: 0 }
}

/// A known-version table row: the exact byte run (as text), the version it
/// denotes, and whether that release stores 16-bit text.
pub open spec fn spec_version_table() -> Seq<(Seq<char>, InnoVersion, bool)> {
    seq![
        ("Inno Setup Setup Data (1.3.21)"@, spec_iv(1, 3, 21, 0), false),
        ("Inno Setup Setup Data (2.0.8)"@, spec_iv(2, 0, 8, 0), false),
        ("Inno Setup Setup Data (3.0.8)"@, spec_iv(3, 0, 8, 0), false),
        ("Inno Setup Setup Data (4.0.0)"@, spec_iv(4, 0, 0, 0), false),
        ("Inno Setup Setup Data (4.0.3)"@, spec_iv(4, 0, 3, 0), false),
        ("Inno Setup Setup Data (4.0.10)"@, spec_iv(4, 0, 10, 0), false),
        ("Inno Setup Setup Data (4.1.6)"@, spec_iv(4, 1, 6, 0), false),
        ("Inno Setup Setup Data (4.2.1)"@, spec_iv(4, 2, 1, 0), false),
        ("Inno Setup Setup Data (5.1.5)"@, spec_iv(5, 1, 5, 0), false),
        ("Inno Setup Setup Data (5.2.3)"@, spec_iv(5, 2, 3, 0), false),
        ("Inno Setup Setup Data (5.3.10)"@, spec_iv(5, 3, 10, 0), false),
        ("Inno Setup Setup Data (5.3.10a)"@, spec_iv(5, 3, 10, 1), false),
        ("Inno Setup Setup Data (5.4.2)"@, spec_iv(5, 4, 2, 0), false),
        ("Inno Setup Setup Data (5.5.0)"@, spec_iv(5, 5, 0, 0), false),
        ("Inno Setup Setup Data (5.5.7)"@, spec_iv(5, 5, 7, 0), false),
        ("Inno Setup Setup Data (5.5.7) (u)"@, spec_iv(5, 5, 7, 0), true),
        ("Inno Setup Setup Data (5.6.0)"@, spec_iv(5, 6, 0, 0), false),
        ("Inno Setup Setup Data (5.6.0) (u)"@, spec_iv(5, 6, 0, 0), true),
        ("Inno Setup Setup Data (5.6.2)"@, spec_iv(5, 6, 2, 0), false),
        ("Inno Setup Setup Data (5.6.2) (u)"@, spec_iv(5, 6, 2, 0), true),
        ("Inno Setup Setup Data (6.0.0) (u)"@, spec_iv(6, 0, 0, 0), true),
        ("Inno Setup Setup Data (6.1.0) (u)"@, spec_iv(6, 1, 0, 0), true),
        ("Inno Setup Setup Data (6.2.0) (u)"@, spec_iv(6, 2, 0, 0), true),
        ("Inno Setup Setup Data (6.2.2) (u)"@, spec_iv(6, 2, 2, 0), true),
        ("Inno Setup Setup Data (6.3.0)"@, spec_iv(6, 3, 0, 0), true),
        ("Inno Setup Setup Data (6.4.0)"@, spec_iv(6, 4, 0, 0), true),
        ("Inno Setup Setup Data (6.4.1)"@, spec_iv(6, 4, 1, 0), true),
        ("Inno Setup Setup Data (6.4.3)"@, spec_iv(6, 4, 3, 0), true),
        ("Inno Setup Setup Data (6.5.0)"@, spec_iv(6, 5, 0, 0), true),
    ]
}

pub open spec fn spec_iv(major: u8, minor: u8, patch: u8, revision: u8) -> InnoVersion {
    InnoVersion { major, minor, patch, revision }
}

/// The characters of a byte run, each byte taken as the character with the
/// same code point.
pub open spec fn spec_latin1(bytes: Seq<u8>) -> Seq<char> {
    bytes.map(|i: int, b: u8| b as char)
}

/// The registry entry whose byte run is `s`, searching the table in order.
pub open spec fn spec_lookup_version_from(s: Seq<char>, k: int) -> Option<KnownVersion>
    decreases spec_version_table().len() - k,
{
    if k < 0 || k >= spec_version_table().len() {
        None
    } else if spec_version_table()[k].0 == s {
        Some(
            KnownVersion {
                version: spec_version_table()[k].1,
                unicode: spec_version_table()[k].2,
            },
        )
    } else {
        spec_lookup_version_from(s, k + 1)
    }
}

/// The registry entry whose byte run is `s`, if any.
pub open spec fn spec_lookup_version(s: Seq<char>) -> Option<KnownVersion> {
    spec_lookup_version_from(s, 0)
}

/// The registry accepts exactly the byte runs in the table: the lookup
/// succeeds if and only if some table row carries that run.
pub proof fn lemma_registry_accepts_exactly_table(s: Seq<char>)
    ensures
        spec_lookup_version(s) is Some <==> exists|i: int|
            0 <= i < spec_version_table().len() && spec_version_table()[i].0 == s,
{
    lemma_lookup_from_membership(s, 0);
}

proof fn lemma_lookup_from_membership(s: Seq<char>, k: int)
    requires
        0 <= k,
    ensures
        spec_lookup_version_from(s, k) is Some <==> exists|i: int|
            k <= i < spec_version_table().len() && spec_version_table()[i].0 == s,
    decreases spec_version_table().len() - k,
{
    if k >= spec_version_table().len() {
    } else if spec_version_table()[k].0 == s {
    } else {
        lemma_lookup_from_membership(s, k + 1);
    }
}

fn version_entry(k: usize) -> (r: (&'static str, KnownVersion))
    requires
        k < spec_version_table().len(),
    ensures
        r.0@ == spec_version_table()[k as int].0,
        r.1.version == spec_version_table()[k as int].1,
        r.1.unicode == spec_version_table()[k as int].2,
{
    let table_str: &'static str = if k == 0 {
        "Inno Setup Setup Data (1.3.21)"
    } else if k == 1 {
        "Inno Setup Setup Data (2.0.8)"
    } else if k == 2 {
        "Inno Setup Setup Data (3.0.8)"
    } else if k == 3 {
        "Inno Setup Setup Data (4.0.0)"
    } else if k == 4 {
        "Inno Setup Setup Data (4.0.3)"
    } else if k == 5 {
        "Inno Setup Setup Data (4.0.10)"
    } else if k == 6 {
        "Inno Setup Setup Data (4.1.6)"
    } else if k == 7 {
        "Inno Setup Setup Data (4.2.1)"
    } else if k == 8 {
        "Inno Setup Setup Data (5.1.5)"
    } else if k == 9 {
        "Inno Setup Setup Data (5.2.3)"
    } else if k == 10 {
        "Inno Setup Setup Data (5.3.10)"
    } else if k == 11 {
        "Inno Setup Setup Data (5.3.10a)"
    } else if k == 12 {
        "Inno Setup Setup Data (5.4.2)"
    } else if k == 13 {
        "Inno Setup Setup Data (5.5.0)"
    } else if k == 14 {
        "Inno Setup Setup Data (5.5.7)"
    } else if k == 15 {
        "Inno Setup Setup Data (5.5.7) (u)"
    } else if k == 16 {
        "Inno Setup Setup Data (5.6.0)"
    } else if k == 17 {
        "Inno Setup Setup Data (5.6.0) (u)"
    } else if k == 18 {
        "Inno Setup Setup Data (5.6.2)"
    } else if k == 19 {
        "Inno Setup Setup Data (5.6.2) (u)"
    } else if k == 20 {
        "Inno Setup Setup Data (6.0.0) (u)"
    } else if k == 21 {
        "Inno Setup Setup Data (6.1.0) (u)"
    } else if k == 22 {
        "Inno Setup Setup Data (6.2.0) (u)"
    } else if k == 23 {
        "Inno Setup Setup Data (6.2.2) (u)"
    } else if k == 24 {
        "Inno Setup Setup Data (6.3.0)"
    } else if k == 25 {
        "Inno Setup Setup Data (6.4.0)"
    } else if k == 26 {
        "Inno Setup Setup Data (6.4.1)"
    } else if k == 27 {
        "Inno Setup Setup Data (6.4.3)"
    } else {
        "Inno Setup Setup Data (6.5.0)"
    };
    let known = if k == 0 {
        KnownVersion { version: InnoVersion::new(1, 3, 21, 0), unicode: false }
    } else if k == 1 {
        KnownVersion { version: InnoVersion::new(2, 0, 8, 0), unicode: false }
    } else if k == 2 {
        KnownVersion { version: InnoVersion::new(3, 0, 8, 0), unicode: false }
    } else if k == 3 {
        KnownVersion { version: InnoVersion::new(4, 0, 0, 0), unicode: false }
    } else if k == 4 {
        KnownVersion { version: InnoVersion::new(4, 0, 3, 0), unicode: false }
    } else if k == 5 {
        KnownVersion { version: InnoVersion::new(4, 0, 10, 0), unicode: false }
    } else if k == 6 {
        KnownVersion { version: InnoVersion::new(4, 1, 6, 0), unicode: false }
    } else if k == 7 {
        KnownVersion { version: InnoVersion::new(4, 2, 1, 0), unicode: false }
    } else if k == 8 {
        KnownVersion { version: InnoVersion::new(5, 1, 5, 0), unicode: false }
    } else if k == 9 {
        KnownVersion { version: InnoVersion::new(5, 2, 3, 0), unicode: false }
    } else if k == 10 {
        KnownVersion { version: InnoVersion::new(5, 3, 10, 0), unicode: false }
    } else if k == 11 {
        KnownVersion { version: InnoVersion::new(5, 3, 10, 1), unicode: false }
    } else if k == 12 {
        KnownVersion { version: InnoVersion::new(5, 4, 2, 0), unicode: false }
    } else if k == 13 {
        KnownVersion { version: InnoVersion::new(5, 5, 0, 0), unicode: false }
    } else if k == 14 {
        KnownVersion { version: InnoVersion::new(5, 5, 7, 0), unicode: false }
    } else if k == 15 {
        KnownVersion { version: InnoVersion::new(5, 5, 7, 0), unicode: true }
    } else if k == 16 {
        KnownVersion { version: InnoVersion::new(5, 6, 0, 0), unicode: false }
    } else if k == 17 {
        KnownVersion { version: InnoVersion::new(5, 6, 0, 0), unicode: true }
    } else if k == 18 {
        KnownVersion { version: InnoVersion::new(5, 6, 2, 0), unicode: false }
    } else if k == 19 {
        KnownVersion { version: InnoVersion::new(5, 6, 2, 0), unicode: true }
    } else if k == 20 {
        KnownVersion { version: InnoVersion::new(6, 0, 0, 0), unicode: true }
    } else if k == 21 {
        KnownVersion { version: InnoVersion::new(6, 1, 0, 0), unicode: true }
    } else if k == 22 {
        KnownVersion { version: InnoVersion::new(6, 2, 0, 0), unicode: true }
    } else if k == 23 {
        KnownVersion { version: InnoVersion::new(6, 2, 2, 0), unicode: true }
    } else if k == 24 {
        KnownVersion { version: InnoVersion::new(6, 3, 0, 0), unicode: true }
    } else if k == 25 {
        KnownVersion { version: InnoVersion::new(6, 4, 0, 0), unicode: true }
    } else if k == 26 {
        KnownVersion { version: InnoVersion::new(6, 4, 1, 0), unicode: true }
    } else if k == 27 {
        KnownVersion { version: InnoVersion::new(6, 4, 3, 0), unicode: true }
    } else {
        KnownVersion { version: InnoVersion::new(6, 5, 0, 0), unicode: true }
    };
    (table_str, known)
}

/// The text of a version byte run, each byte as the character with the same
/// code point.
pub fn latin1_string(bytes: &Vec<u8>) -> (r: String)
    ensures
        r@ == spec_latin1(bytes@),
{
    let mut out = String::new();
    let mut i: usize = 0;
    while i < bytes.len()
        invariant
            i <= bytes.len(),
            out@ == spec_latin1(bytes@.take(i as int)),
        decreases bytes.len() - i,
    {
        push_char(&mut out, bytes[i] as char);
        proof {
            assert(out@ =~= spec_latin1(bytes@.take(i + 1)));
        }
        i = i + 1;
    }
    proof {
        assert(spec_latin1(bytes@.take(bytes@.len() as int)) =~= spec_latin1(bytes@));
    }
    out
}

/// Resolves a trimmed version byte run against the registry: accepts
/// exactly the byte runs in the known-version table.
pub fn from_version_bytes(bytes: &Vec<u8>) -> (r: Option<KnownVersion>)
    ensures
        r == spec_lookup_version(spec_latin1(bytes@)),
{
    let text = latin1_string(bytes);
    let n: usize = 29;
    proof {
        assert(spec_version_table().len() == 29);
    }
    let mut k: usize = 0;
    while k < n
        invariant
            k <= n,
            n == spec_version_table().len(),
            text@ == spec_latin1(bytes@),
            spec_lookup_version(spec_latin1(bytes@)) == spec_lookup_version_from(
                spec_latin1(bytes@),
                k as int,
            ),
        decreases n - k,
    {
        let (lit, known) = version_entry(k);
        if string_eq_str(&text, lit) {
            return Some(known);
        }
        k = k + 1;
    }
    None
}

/// Relies on `str::eq`: string equality is character equality.
#[verifier::external_body]
fn string_eq_str(a: &String, b: &str) -> (r: bool)
    ensures
        r == (a@ == b@),
{
    a.as_str() == b
}

/// What UTF-8 decoding with replacement yields for a byte run.
pub uninterp spec fn spec_utf8_lossy(bytes: Seq<u8>) -> Seq<char>;

/// Relies on `String::from_utf8_lossy`: decodes UTF-8, substituting the
/// replacement character for ill-formed sequences. The result is a
/// function of the bytes alone, and a pure-ASCII run decodes to its own
/// code points.
#[verifier::external_body]
pub fn utf8_lossy_string(bytes: &Vec<u8>) -> (r: String)
    ensures
        r@ == spec_utf8_lossy(bytes@),
        (forall|i: int| 0 <= i < bytes@.len() ==> #[trigger] bytes@[i] < 0x80) ==> r@
            == spec_latin1(bytes@),
{
    String::from_utf8_lossy(bytes.as_slice()).into_owned()
}

} // verus!
