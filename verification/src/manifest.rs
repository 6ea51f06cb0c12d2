//! The `pact.toml` manifest: its validated form, the raw form that the TOML
//! reader fills in, and the rules that turn one into the other.
//!
//! A `pact.toml` file describes a Pact package: its identity, external
//! dependencies, pact capability requirements, and resource-usage seal policy.

use std::collections::BTreeMap;
use vstd::prelude::*;
use crate::text::{
    all_digits, all_name_chars, cut_at, digits_in, find_char_in, has_char,
    lemma_first_pos, only_name_chars,
};

verus! {

/// The TOML reader's error type, carried through unchanged.
#[verifier::external_type_specification]
#[verifier::external_body]
pub struct ExTomlError(toml::de::Error);

/// The I/O error type, carried through unchanged.
#[verifier::external_type_specification]
#[verifier::external_body]
pub struct ExIoError(std::io::Error);

/// A fully-parsed and validated `pact.toml` manifest.
#[derive(Debug, Clone, PartialEq)]
pub struct Manifest {
    /// Package identity metadata.
    pub package: PackageInfo,
    /// External package dependencies, keyed by name with a version requirement.
    pub dependencies: BTreeMap<String, String>,
    /// Pact capability requirements for this package.
    pub pacts: PactRequirements,
    /// Optional resource-usage constraints (the "seal").
    pub seal: Option<SealPolicy>,
}

/// Identity and metadata for the package.
#[derive(Debug, Clone, PartialEq)]
pub struct PackageInfo {
    /// Package name: lowercase ASCII letters, digits, and hyphens only.
    pub name: String,
    /// Package version in `MAJOR.MINOR.PATCH` semver form.
    pub version: String,
    /// Optional list of author contact strings.
    pub authors: Vec<String>,
    /// Optional SPDX license expression.
    pub license: Option<String>,
    /// Optional human-readable description.
    pub description: Option<String>,
}

/// Pact capability requirements declared by the package.
#[derive(Debug, Clone, PartialEq, Default)]
pub struct PactRequirements {
    /// Capabilities that must be provided at runtime.
    pub required: Vec<String>,
    /// Capabilities that enhance functionality when available.
    pub optional: Vec<String>,
}

/// Resource-usage constraints imposed on the running package.
#[derive(Debug, Clone, PartialEq, Default)]
pub struct SealPolicy {
    /// Maximum memory allocation, e.g. `"256mb"`.
    pub max_memory: Option<String>,
    /// Maximum wall-clock duration, e.g. `"30s"`.
    pub max_duration: Option<String>,
    /// Hosts the package is permitted to contact.
    pub allowed_hosts: Vec<String>,
}

/// Errors that can arise while loading or validating a manifest.
#[derive(Debug)]
pub enum ManifestError {
    /// The TOML text could not be parsed.
    ParseError(toml::de::Error),
    /// A required field was absent or invalid; the string names the field
    /// (e.g. `"package.name"`).
    MissingField(String),
    /// The file could not be read from disk.
    IoError(std::io::Error),
}

impl From<toml::de::Error> for ManifestError {
    fn from(e: toml::de::Error) -> (r: ManifestError)
        ensures
            r == ManifestError::ParseError(e),
    {
        ManifestError::ParseError(e)
    }
}

impl vstd::std_specs::convert::FromSpecImpl<toml::de::Error> for ManifestError {
    open spec fn obeys_from_spec() -> bool {
        true
    }

    open spec fn from_spec(e: toml::de::Error) -> ManifestError {
        ManifestError::ParseError(e)
    }
}

impl From<std::io::Error> for ManifestError {
    fn from(e: std::io::Error) -> (r: ManifestError)
        ensures
            r == ManifestError::IoError(e),
    {
        ManifestError::IoError(e)
    }
}

impl vstd::std_specs::convert::FromSpecImpl<std::io::Error> for ManifestError {
    open spec fn obeys_from_spec() -> bool {
        true
    }

    open spec fn from_spec(e: std::io::Error) -> ManifestError {
        ManifestError::IoError(e)
    }
}

/// The manifest exactly as the TOML text shapes it, before validation.
/// Absent tables and lists are empty, absent optional keys are `None`.
#[derive(Debug)]
pub struct RawManifest {
    pub package: Option<RawPackage>,
    pub dependencies: BTreeMap<String, String>,
    pub pacts: RawPacts,
    pub seal: Option<RawSeal>,
}

/// The `[package]` table as written.
#[derive(Debug)]
pub struct RawPackage {
    pub name: Option<String>,
    pub version: Option<String>,
    pub authors: Vec<String>,
    pub license: Option<String>,
    pub description: Option<String>,
}

/// The `[pacts]` table as written.
#[derive(Debug, Default)]
pub struct RawPacts {
    pub required: Vec<String>,
    pub optional: Vec<String>,
}

/// The `[seal]` table as written.
#[derive(Debug)]
pub struct RawSeal {
    pub max_memory: Option<String>,
    pub max_duration: Option<String>,
    pub allowed_hosts: Vec<String>,
}

/// A valid package name is non-empty and contains only lowercase ASCII
/// letters, ASCII digits, and hyphens.
pub open spec fn is_valid_package_name(s: Seq<char>) -> bool {
    s.len() > 0 && all_name_chars(s)
}

/// `c` is three non-empty runs of digits separated by two dots.
pub open spec fn is_numeric_triple(c: Seq<char>) -> bool {
    exists|i: int, j: int|
        #![trigger c[i], c[j]]
        0 < i && i + 1 < j && j + 1 < c.len() && c[i] == '.' && c[j] == '.'
            && all_digits(c.subrange(0, i)) && all_digits(c.subrange(i + 1, j))
            && all_digits(c.subrange(j + 1, c.len() as int))
}

/// The `X.Y.Z` core of a version string: what stands before the first `+`
/// (build metadata), and of that what stands before the first `-` (pre-release).
pub open spec fn version_core(v: Seq<char>) -> Seq<char> {
    cut_at(cut_at(v, '+'), '-')
}

/// A valid version is `X.Y.Z` with optional `-pre-release` and `+build`
/// suffixes, each of `X`, `Y`, `Z` a non-empty run of digits.
pub open spec fn is_valid_version(v: Seq<char>) -> bool {
    is_numeric_triple(version_core(v))
}

/// The field that validation of `raw` complains about, if any.
pub open spec fn raw_fault(raw: RawManifest) -> Option<Seq<char>> {
    match raw.package {
        None => Some("package"@),
        Some(p) => match p.name {
            None => Some("package.name"@),
            Some(n) => if !is_valid_package_name(n@) {
                Some("package.name"@)
            } else {
                match p.version {
                    None => Some("package.version"@),
                    Some(v) => if !is_valid_version(v@) {
                        Some("package.version"@)
                    } else {
                        None
                    },
                }
            },
        },
    }
}

/// The manifest that a fault-free `raw` becomes: every value moved across as is.
pub open spec fn manifest_of(raw: RawManifest) -> Manifest {
    let p = raw.package.unwrap();
    Manifest {
        package: PackageInfo {
            name: p.name.unwrap(),
            version: p.version.unwrap(),
            authors: p.authors,
            license: p.license,
            description: p.description,
        },
        dependencies: raw.dependencies,
        pacts: PactRequirements { required: raw.pacts.required, optional: raw.pacts.optional },
        seal: match raw.seal {
            None => None,
            Some(s) => Some(
                SealPolicy {
                    max_memory: s.max_memory,
                    max_duration: s.max_duration,
                    allowed_hosts: s.allowed_hosts,
                },
            ),
        },
    }
}

/// `r` is the `MissingField` error naming `field`.
pub open spec fn is_missing(r: Result<(), ManifestError>, field: Seq<char>) -> bool {
    r matches Err(ManifestError::MissingField(f)) && f@ == field
}

/// Check a package name.
pub fn validate_package_name(name: &str) -> (r: Result<(), ManifestError>)
    ensures
        r is Ok <==> is_valid_package_name(name@),
        r is Err ==> is_missing(r, "package.name"@),
{
    if name.unicode_len() == 0 {
        return Err(ManifestError::MissingField(String::from_str("package.name")));
    }
    if only_name_chars(name) {
        Ok(())
    } else {
        Err(ManifestError::MissingField(String::from_str("package.name")))
    }
}

/// Whether `version` is `X.Y.Z` with optional suffixes.
fn version_is_valid(version: &str) -> (ok: bool)
    ensures
        ok == is_valid_version(version@),
{
    let ghost v = version@;
    let n = version.unicode_len();
    let plus = find_char_in(version, '+', 0, n);
    proof {
        lemma_first_pos(v, '+', plus as int);
    }
    let ghost w = cut_at(v, '+');
    let end = find_char_in(version, '-', 0, plus);
    proof {
        assert(w.len() == plus);
        assert forall|k: int| 0 <= k < w.len() implies w[k] == v[k] by {}
        lemma_first_pos(w, '-', end as int);
    }
    let ghost c = version_core(v);
    assert(c == v.take(end as int));
    let d1 = find_char_in(version, '.', 0, end);
    if d1 == end {
        assert(!is_numeric_triple(c)) by {
            if is_numeric_triple(c) {
                let (i, j) = choose|i: int, j: int|
                    #![trigger c[i], c[j]]
                    0 < i && i + 1 < j && j + 1 < c.len() && c[i] == '.' && c[j] == '.'
                        && all_digits(c.subrange(0, i)) && all_digits(c.subrange(i + 1, j))
                        && all_digits(c.subrange(j + 1, c.len() as int));
                assert(v[i] == '.');
            }
        }
        return false;
    }
    let d2 = find_char_in(version, '.', d1 + 1, end);
    if d2 == end {
        assert(!is_numeric_triple(c)) by {
            if is_numeric_triple(c) {
                let (i, j) = choose|i: int, j: int|
                    #![trigger c[i], c[j]]
                    0 < i && i + 1 < j && j + 1 < c.len() && c[i] == '.' && c[j] == '.'
                        && all_digits(c.subrange(0, i)) && all_digits(c.subrange(i + 1, j))
                        && all_digits(c.subrange(j + 1, c.len() as int));
                if i < d1 {
                    assert(v[i] != '.');
                } else if i > d1 {
                    assert(c.subrange(0, i)[d1 as int] == '.');
                } else {
                    assert(v[j] == '.');
                }
            }
        }
        return false;
    }
    let ok = d1 > 0 && d2 > d1 + 1 && d2 + 1 < end && digits_in(version, 0, d1)
        && digits_in(version, d1 + 1, d2) && digits_in(version, d2 + 1, end);
    proof {
        assert(c.subrange(0, d1 as int) == v.subrange(0, d1 as int));
        assert(c.subrange(d1 + 1, d2 as int) == v.subrange(d1 + 1, d2 as int));
        assert(c.subrange(d2 + 1, c.len() as int) == v.subrange(d2 + 1, end as int));
        if ok {
            assert(c[d1 as int] == '.' && c[d2 as int] == '.');
        }
        if is_numeric_triple(c) {
            let (i, j) = choose|i: int, j: int|
                #![trigger c[i], c[j]]
                0 < i && i + 1 < j && j + 1 < c.len() && c[i] == '.' && c[j] == '.'
                    && all_digits(c.subrange(0, i)) && all_digits(c.subrange(i + 1, j))
                    && all_digits(c.subrange(j + 1, c.len() as int));
            if i < d1 {
                assert(v[i] != '.');
            } else if i > d1 {
                assert(c.subrange(0, i)[d1 as int] == '.');
            }
            assert(i == d1);
            if j < d2 {
                assert(v[j] != '.');
            } else if j > d2 {
                assert(c.subrange(i + 1, j)[d2 - i - 1] == '.');
            }
            assert(j == d2);
        }
    }
    ok
}

/// Check a version string: `X.Y.Z` with optional `-pre` and `+meta` suffixes.
pub fn validate_version(version: &str) -> (r: Result<(), ManifestError>)
    ensures
        r is Ok <==> is_valid_version(version@),
        r is Err ==> is_missing(r, "package.version"@),
{
    if version_is_valid(version) {
        Ok(())
    } else {
        Err(ManifestError::MissingField(String::from_str("package.version")))
    }
}

/// Pre-release and build-metadata suffixes do not decide validity: a version
/// `X.Y.Z`, `X.Y.Z-pre`, `X.Y.Z+meta` or `X.Y.Z-pre+meta` is valid exactly when
/// its core `X.Y.Z` is three runs of digits separated by dots.
pub proof fn lemma_version_suffixes(c: Seq<char>, pre: Seq<char>, meta: Seq<char>)
    requires
        !has_char(c, '+'),
        !has_char(c, '-'),
        !has_char(pre, '+'),
    ensures
        is_valid_version(c) == is_numeric_triple(c),
        is_valid_version(c + seq!['-'] + pre) == is_numeric_triple(c),
        is_valid_version(c + seq!['+'] + meta) == is_numeric_triple(c),
        is_valid_version(c + seq!['-'] + pre + seq!['+'] + meta) == is_numeric_triple(c),
{
    let n = c.len() as int;
    // X.Y.Z
    lemma_first_pos(c, '+', n);
    assert(c.take(n) =~= c);
    lemma_first_pos(c, '-', n);
    // X.Y.Z-pre
    let v2 = c + seq!['-'] + pre;
    assert forall|k: int| 0 <= k < v2.len() implies v2[k] != '+' by {
        if k < n {
            assert(v2[k] == c[k]);
        } else if k > n {
            assert(v2[k] == pre[k - n - 1]);
        }
    }
    lemma_first_pos(v2, '+', v2.len() as int);
    assert(v2.take(v2.len() as int) =~= v2);
    assert forall|k: int| 0 <= k < n implies v2[k] != '-' by {
        assert(v2[k] == c[k]);
    }
    lemma_first_pos(v2, '-', n);
    assert(v2.take(n) =~= c);
    // X.Y.Z+meta
    let v3 = c + seq!['+'] + meta;
    assert forall|k: int| 0 <= k < n implies v3[k] != '+' by {
        assert(v3[k] == c[k]);
    }
    lemma_first_pos(v3, '+', n);
    assert(v3.take(n) =~= c);
    // X.Y.Z-pre+meta
    let w = c + seq!['-'] + pre;
    let v4 = w + seq!['+'] + meta;
    let m = w.len() as int;
    assert forall|k: int| 0 <= k < m implies v4[k] != '+' by {
        assert(v4[k] == w[k]);
        assert(w[k] == v2[k]);
    }
    lemma_first_pos(v4, '+', m);
    assert(v4.take(m) =~= w);
}

/// Validation keeps every value of a valid manifest as written: the package
/// fields, the dependencies, the pacts, and the `[seal]` table whenever one is
/// present (whatever it holds, an empty host list included); the seal is
/// absent only when the table is.
pub proof fn lemma_validation_keeps_values(raw: RawManifest)
    requires
        raw_fault(raw) is None,
    ensures
        raw.package matches Some(p) && p.name == Some(manifest_of(raw).package.name)
            && p.version == Some(manifest_of(raw).package.version)
            && p.authors == manifest_of(raw).package.authors
            && p.license == manifest_of(raw).package.license
            && p.description == manifest_of(raw).package.description,
        manifest_of(raw).dependencies == raw.dependencies,
        manifest_of(raw).pacts.required == raw.pacts.required,
        manifest_of(raw).pacts.optional == raw.pacts.optional,
        raw.seal is None <==> manifest_of(raw).seal is None,
        raw.seal matches Some(s) ==> (manifest_of(raw).seal matches Some(q) && q.max_memory
            == s.max_memory && q.max_duration == s.max_duration && q.allowed_hosts@
            == s.allowed_hosts@),
{
}

/// Validation reports the first missing or invalid field, in the order
/// `package`, `package.name`, `package.version`, and nothing for a manifest
/// whose package has a valid name and version.
pub proof fn lemma_fault_order(raw: RawManifest)
    ensures
        raw.package is None ==> raw_fault(raw) == Some("package"@),
        raw.package matches Some(p) ==> (p.name is None ==> raw_fault(raw) == Some("package.name"@)),
        raw.package matches Some(p) ==> (p.name matches Some(n) ==> (!is_valid_package_name(n@)
            ==> raw_fault(raw) == Some("package.name"@))),
        raw.package matches Some(p) ==> (p.name matches Some(n) ==> (is_valid_package_name(n@)
            ==> (p.version is None ==> raw_fault(raw) == Some("package.version"@)))),
        raw.package matches Some(p) ==> (p.name matches Some(n) ==> (is_valid_package_name(n@)
            ==> (p.version matches Some(v) ==> (raw_fault(raw) is None <==> is_valid_version(
            v@))))),
{
}

/// A package name is valid exactly when it is non-empty and every character
/// is `a`..=`z`, `0`..=`9` or `-`.
pub proof fn lemma_package_name_chars(s: Seq<char>)
    ensures
        is_valid_package_name(s) <==> (s.len() > 0 && forall|i: int|
            0 <= i < s.len() ==> ('a' <= #[trigger] s[i] && s[i] <= 'z') || ('0' <= s[i] && s[i]
                <= '9') || s[i] == '-'),
{
}

/// Three non-empty runs of the digits `0`..=`9`, joined by dots, form a valid
/// version.
pub proof fn lemma_digit_triple_is_version(a: Seq<char>, b: Seq<char>, c: Seq<char>)
    requires
        a.len() > 0 && b.len() > 0 && c.len() > 0,
        forall|i: int| 0 <= i < a.len() ==> '0' <= #[trigger] a[i] && a[i] <= '9',
        forall|i: int| 0 <= i < b.len() ==> '0' <= #[trigger] b[i] && b[i] <= '9',
        forall|i: int| 0 <= i < c.len() ==> '0' <= #[trigger] c[i] && c[i] <= '9',
    ensures
        is_valid_version(a + seq!['.'] + b + seq!['.'] + c),
{
    let v = a + seq!['.'] + b + seq!['.'] + c;
    let i = a.len() as int;
    let j = i + 1 + b.len();
    assert forall|k: int| 0 <= k < v.len() implies v[k] != '+' && v[k] != '-' by {
        if k < i {
            assert(v[k] == a[k]);
        } else if i < k < j {
            assert(v[k] == b[k - i - 1]);
        } else if k > j {
            assert(v[k] == c[k - j - 1]);
        }
    }
    lemma_first_pos(v, '+', v.len() as int);
    assert(v.take(v.len() as int) =~= v);
    lemma_first_pos(v, '-', v.len() as int);
    assert(v.subrange(0, i) =~= a);
    assert(v.subrange(i + 1, j) =~= b);
    assert(v.subrange(j + 1, v.len() as int) =~= c);
    assert(v[i] == '.' && v[j] == '.');
    assert(version_core(v) == v);
}

/// A valid version starts with a digit `0`..=`9` and holds at least two dots.
pub proof fn lemma_valid_version_shape(v: Seq<char>)
    requires
        is_valid_version(v),
    ensures
        v.len() >= 5,
        '0' <= v[0] && v[0] <= '9',
        exists|i: int, j: int| 0 < i < j < v.len() && v[i] == '.' && v[j] == '.',
{
    let c = version_core(v);
    let (i, j) = choose|i: int, j: int|
        #![trigger c[i], c[j]]
        0 < i && i + 1 < j && j + 1 < c.len() && c[i] == '.' && c[j] == '.'
            && all_digits(c.subrange(0, i)) && all_digits(c.subrange(i + 1, j))
            && all_digits(c.subrange(j + 1, c.len() as int));
    let w = cut_at(v, '+');
    assert(c.len() <= w.len() <= v.len());
    assert(forall|k: int| 0 <= k < c.len() ==> c[k] == w[k]);
    assert(forall|k: int| 0 <= k < w.len() ==> w[k] == v[k]);
    assert(c.subrange(0, i)[0] == c[0]);
    assert(v[i] == c[i] && v[j] == c[j]);
}

impl RawManifest {
    /// Validate the raw manifest and move its values into a [`Manifest`].
    pub fn validate(self) -> (r: Result<Manifest, ManifestError>)
        ensures
            raw_fault(self) is None ==> r == Ok::<Manifest, ManifestError>(manifest_of(self)),
            raw_fault(self) matches Some(f) ==> (r matches Err(ManifestError::MissingField(g)) && g@ == f),
            r matches Ok(m) ==> (self.seal is None <==> m.seal is None),
            r matches Ok(m) ==> (self.seal matches Some(s) ==> (m.seal matches Some(q) && q.max_memory
                == s.max_memory && q.max_duration == s.max_duration && q.allowed_hosts@
                == s.allowed_hosts@)),
    {
        let ghost raw = self;
        let raw_pkg = match self.package {
            Some(p) => p,
            None => return Err(ManifestError::MissingField(String::from_str("package"))),
        };
        let name = match raw_pkg.name {
            Some(n) => n,
            None => return Err(ManifestError::MissingField(String::from_str("package.name"))),
        };
        if let Err(e) = validate_package_name(name.as_str()) {
            return Err(e);
        }
        let version = match raw_pkg.version {
            Some(v) => v,
            None => return Err(ManifestError::MissingField(String::from_str("package.version"))),
        };
        if let Err(e) = validate_version(version.as_str()) {
            return Err(e);
        }
        let package = PackageInfo {
            name,
            version,
            authors: raw_pkg.authors,
            license: raw_pkg.license,
            description: raw_pkg.description,
        };
        let pacts = PactRequirements { required: self.pacts.required, optional: self.pacts.optional };
        let seal = match self.seal {
            None => None,
            Some(s) => Some(
                SealPolicy {
                    max_memory: s.max_memory,
                    max_duration: s.max_duration,
                    allowed_hosts: s.allowed_hosts,
                },
            ),
        };
        Ok(Manifest { package, dependencies: self.dependencies, pacts, seal })
    }
}

} // verus!
