//! Semantic versions and version requirements, read, matched and ordered by
//! the `semver` crate.

use vstd::prelude::*;
use crate::pragma::{find_version_pragma, version_pragma};
use crate::text::{chars_of, decimal, decimal_text, string_of};

verus! {

/// What a [`Version`] stands for: three numbers and two tags, each tag
/// empty when the version has none.
pub struct VersionView {
    pub major: u64,
    pub minor: u64,
    pub patch: u64,
    pub pre: Seq<char>,
    pub build: Seq<char>,
}

/// A semantic version: `major.minor.patch`, then `-` and a pre-release tag,
/// then `+` and build metadata, where it has them.
#[derive(Debug, PartialEq, Eq, Hash)]
pub struct Version {
    pub major: u64,
    pub minor: u64,
    pub patch: u64,
    pub pre: String,
    pub build: String,
}

impl View for Version {
    type V = VersionView;

    open spec fn view(&self) -> VersionView {
        VersionView {
            major: self.major,
            minor: self.minor,
            patch: self.patch,
            pre: self.pre@,
            build: self.build@,
        }
    }
}

impl Clone for Version {
    fn clone(&self) -> (r: Version)
        ensures
            r@ == self@,
    {
        Version {
            major: self.major,
            minor: self.minor,
            patch: self.patch,
            pre: self.pre.clone(),
            build: self.build.clone(),
        }
    }
}

/// The views of a list of versions, in order.
pub open spec fn views(versions: Seq<Version>) -> Seq<VersionView> {
    versions.map_values(|v: Version| v@)
}

/// `semver::Error`: why `semver` refused a text. It is carried as it is.
#[verifier::external_type_specification]
#[verifier::external_body]
pub struct ExSemverError(semver::Error);

/// What `semver` reads in a text as a version: `None` where it refuses the
/// text.
pub uninterp spec fn semver_version(text: Seq<char>) -> Option<VersionView>;

/// `semver::VersionReq`: a version requirement, which holds a list of
/// comparators. It is carried as it is; what it holds is named by
/// [`comparators`].
#[verifier::external_type_specification]
#[verifier::external_body]
pub struct ExSemverVersionReq(semver::VersionReq);

/// How a comparator holds a version against its own numbers.
pub enum Op {
    Exact,
    Greater,
    GreaterEq,
    Less,
    LessEq,
    Tilde,
    Caret,
    Wildcard,
}

/// One comparator of a requirement: an operator, the numbers it names and
/// its pre-release tag, empty where it has none.
pub struct Comparator {
    pub op: Op,
    pub major: u64,
    pub minor: Option<u64>,
    pub patch: Option<u64>,
    pub pre: Seq<char>,
}

/// The comparators that a requirement holds, in order. A version satisfies
/// the requirement where it meets them all.
pub uninterp spec fn comparators(requirement: semver::VersionReq) -> Seq<Comparator>;

/// The comparators that `semver` reads in a text as a version requirement:
/// `None` where it refuses the text.
pub uninterp spec fn semver_requirement(text: Seq<char>) -> Option<Seq<Comparator>>;

/// Whether a requirement that holds these comparators accepts `version`:
/// `None` where `semver` refuses one of the version's tags.
pub uninterp spec fn semver_matches(comparators: Seq<Comparator>, version: VersionView) -> Option<
    bool,
>;

/// Whether `a` comes before `b` in the order `semver` gives to versions:
/// `None` where `semver` refuses a tag of either.
pub uninterp spec fn semver_less(a: VersionView, b: VersionView) -> Option<bool>;

/// Calls `semver::Version::parse` and moves the fields of what it returns
/// into a [`Version`], the two tags as the text `as_str` gives for them.
/// The result is, by definition, `semver_version` of the text; the error is
/// the one `semver` made.
#[verifier::external_body]
fn semver_parse_version(text: &str) -> (r: Result<Version, semver::Error>)
    ensures
        match r {
            Ok(v) => semver_version(text@) == Some(v@),
            Err(_) => semver_version(text@).is_none(),
        },
{
    let v = semver::Version::parse(text)?;
    Ok(Version {
        major: v.major,
        minor: v.minor,
        patch: v.patch,
        pre: v.pre.as_str().to_string(),
        build: v.build.as_str().to_string(),
    })
}

/// `semver::VersionReq::parse` reads a requirement in a text: what it
/// returns holds, by definition, the comparators that `semver_requirement`
/// names for the text, and it fails where that names none.
pub assume_specification[ semver::VersionReq::parse ](text: &str) -> (r: Result<
    semver::VersionReq,
    semver::Error,
>)
    ensures
        match r {
            Ok(req) => semver_requirement(text@) == Some(comparators(req)),
            Err(_) => semver_requirement(text@).is_none(),
        },
;

/// Calls `semver::VersionReq::matches` on the requirement and on the
/// version built from `version`'s fields, its tags through
/// `Prerelease::new` and `BuildMetadata::new`. The result is, by
/// definition, `semver_matches` of the requirement's comparators and the
/// version; it is `None` where a tag is refused.
#[verifier::external_body]
fn semver_requirement_matches(requirement: &semver::VersionReq, version: &Version) -> (r: Option<
    bool,
>)
    ensures
        r == semver_matches(comparators(*requirement), version@),
{
    let pre = semver::Prerelease::new(&version.pre).ok()?;
    let build = semver::BuildMetadata::new(&version.build).ok()?;
    let version =
        semver::Version { major: version.major, minor: version.minor, patch: version.patch, pre, build };
    Some(requirement.matches(&version))
}

/// Compares two versions with `<` of `semver::Version`, each built from
/// the fields of a [`Version`], its tags through `Prerelease::new` and
/// `BuildMetadata::new`. The result is, by definition, `semver_less` of the
/// two; it is `None` where a tag is refused.
#[verifier::external_body]
fn semver_version_less(a: &Version, b: &Version) -> (r: Option<bool>)
    ensures
        r == semver_less(a@, b@),
{
    let pre = semver::Prerelease::new(&a.pre).ok()?;
    let build = semver::BuildMetadata::new(&a.build).ok()?;
    let a = semver::Version { major: a.major, minor: a.minor, patch: a.patch, pre, build };
    let pre = semver::Prerelease::new(&b.pre).ok()?;
    let build = semver::BuildMetadata::new(&b.build).ok()?;
    let b = semver::Version { major: b.major, minor: b.minor, patch: b.patch, pre, build };
    Some(a < b)
}

/// Whether `version` satisfies a requirement that holds the comparators
/// `requirement`.
pub open spec fn satisfies(version: VersionView, requirement: Seq<Comparator>) -> bool {
    semver_matches(requirement, version) == Some(true)
}

/// Whether `a` is strictly older than `b`.
pub open spec fn older(a: VersionView, b: VersionView) -> bool {
    semver_less(a, b) == Some(true)
}

/// Whether every version of the list is strictly older than all that
/// follow it.
pub open spec fn ascending(versions: Seq<VersionView>) -> bool {
    forall|i: int, j: int| 0 <= i < j < versions.len() ==> older(versions[i], versions[j])
}

/// Whether no version of the list is strictly older than one that stands
/// before it.
pub open spec fn never_descends(versions: Seq<VersionView>) -> bool {
    forall|i: int, j: int| 0 <= i < j < versions.len() ==> !older(versions[j], versions[i])
}

/// The version `major.minor.patch` without tags.
pub open spec fn release(major: u64, minor: u64, patch: u64) -> VersionView {
    VersionView { major, minor, patch, pre: Seq::empty(), build: Seq::empty() }
}

/// Whether the numbers of `v` are at least `major.minor.patch`, compared
/// one after the other.
pub open spec fn at_least(v: VersionView, major: u64, minor: u64, patch: u64) -> bool {
    v.major > major || (v.major == major && (v.minor > minor || (v.minor == minor && v.patch
        >= patch)))
}

/// The version as it is written: the three numbers with dots between them,
/// then `-` and the pre-release tag, then `+` and the build metadata, each
/// where the version has one.
pub open spec fn written(v: VersionView) -> Seq<char> {
    decimal(v.major as nat) + "."@ + decimal(v.minor as nat) + "."@ + decimal(v.patch as nat) + (
    if v.pre.len() > 0 {
        "-"@ + v.pre
    } else {
        Seq::empty()
    }) + (if v.build.len() > 0 {
        "+"@ + v.build
    } else {
        Seq::empty()
    })
}

impl Version {
    /// The version as it is written.
    pub fn to_string(&self) -> (r: String)
        ensures
            r@ == written(self@),
    {
        let mut out = decimal_text(self.major);
        out.append(".");
        out.append(decimal_text(self.minor).as_str());
        out.append(".");
        out.append(decimal_text(self.patch).as_str());
        let ghost numbers = out@;
        if self.pre.as_str().unicode_len() > 0 {
            out.append("-");
            out.append(self.pre.as_str());
        }
        proof {
            assert(out@ =~= numbers + (if self@.pre.len() > 0 {
                "-"@ + self@.pre
            } else {
                Seq::empty()
            }));
        }
        let ghost tagged = out@;
        if self.build.as_str().unicode_len() > 0 {
            out.append("+");
            out.append(self.build.as_str());
        }
        proof {
            assert(out@ =~= tagged + (if self@.build.len() > 0 {
                "+"@ + self@.build
            } else {
                Seq::empty()
            }));
        }
        out
    }

    /// The version `major.minor.patch`, without tags.
    pub fn new(major: u64, minor: u64, patch: u64) -> (r: Version)
        ensures
            r@ == release(major, minor, patch),
    {
        Version { major, minor, patch, pre: String::new(), build: String::new() }
    }

    /// Reads a version as `semver` does.
    pub fn parse(text: &str) -> (r: Result<Version, semver::Error>)
        ensures
            match r {
                Ok(v) => semver_version(text@) == Some(v@),
                Err(_) => semver_version(text@).is_none(),
            },
    {
        semver_parse_version(text)
    }

    /// The same numbers without the tags.
    pub fn short(&self) -> (r: Version)
        ensures
            r@ == release(self.major, self.minor, self.patch),
    {
        Version::new(self.major, self.minor, self.patch)
    }

    /// Whether this version is strictly older than `other`.
    pub fn is_older_than(&self, other: &Version) -> (r: bool)
        ensures
            r == older(self@, other@),
    {
        match semver_version_less(self, other) {
            Some(b) => b,
            None => false,
        }
    }

    /// Whether this version satisfies `requirement`.
    pub fn satisfies(&self, requirement: &semver::VersionReq) -> (r: bool)
        ensures
            r == satisfies(self@, comparators(*requirement)),
    {
        match semver_requirement_matches(requirement, self) {
            Some(b) => b,
            None => false,
        }
    }

    /// Whether the numbers of this version are at least
    /// `major.minor.patch`; the tags are not looked at.
    pub fn is_at_least(&self, major: u64, minor: u64, patch: u64) -> (r: bool)
        ensures
            r == at_least(self@, major, minor, patch),
    {
        self.major > major || (self.major == major && (self.minor > minor || (self.minor == minor
            && self.patch >= patch)))
    }

    /// Whether the two versions have the same numbers and tags.
    pub fn same(&self, other: &Version) -> (r: bool)
        ensures
            r == (self@ == other@),
    {
        let r = self.major == other.major && self.minor == other.minor && self.patch
            == other.patch && self.pre == other.pre && self.build == other.build;
        proof {
            if r {
                assert(self@.pre == other@.pre);
            }
        }
        r
    }
}

/// The text with each space replaced by a comma.
pub open spec fn commas_for_spaces(text: Seq<char>) -> Seq<char> {
    text.map_values(|c: char| if c == ' ' { ',' } else { c })
}

/// What is known of a source file's text.
#[derive(Debug, PartialEq, Eq)]
pub struct SolData {
    /// The expression of the version pragma, where the text has one.
    pub version: Option<String>,
    /// The requirement read in that expression, where `semver` accepts it.
    pub version_req: Option<semver::VersionReq>,
}

impl SolData {
    /// Reads what a source text says of the compiler it wants: the
    /// expression of its first version pragma, and the requirement that
    /// stands there.
    pub fn parse(content: &str) -> (r: SolData)
        ensures
            match version_pragma(content@) {
                None => r.version.is_none() && r.version_req.is_none(),
                Some(e) => {
                    &&& r.version matches Some(v) && v@ == e
                    &&& match semver_requirement(commas_for_spaces(e)) {
                        Some(c) => r.version_req matches Some(req) && comparators(req) == c,
                        None => r.version_req.is_none(),
                    }
                },
            },
    {
        match find_version_pragma(content) {
            None => SolData { version: None, version_req: None },
            Some(version) => {
                let version_req = match Self::parse_version_req(version.as_str()) {
                    Ok(req) => Some(req),
                    Err(_) => None,
                };
                SolData { version: Some(version), version_req }
            },
        }
    }

    /// Reads the expression of a version pragma. A pragma separates its
    /// comparators by single spaces where `semver` wants commas, so each
    /// space is replaced by a comma before `semver` reads the text.
    pub fn parse_version_req(version: &str) -> (r: Result<semver::VersionReq, semver::Error>)
        ensures
            match r {
                Ok(req) => semver_requirement(commas_for_spaces(version@)) == Some(
                    comparators(req),
                ),
                Err(_) => semver_requirement(commas_for_spaces(version@)).is_none(),
            },
    {
        let chars = chars_of(version);
        let mut out: Vec<char> = Vec::new();
        let mut i: usize = 0;
        while i < chars.len()
            invariant
                i <= chars.len(),
                out@ == commas_for_spaces(chars@.take(i as int)),
            decreases chars.len() - i,
        {
            let c = chars[i];
            out.push(if c == ' ' { ',' } else { c });
            proof {
                assert(chars@.take(i + 1) == chars@.take(i as int).push(c));
                assert(out@ =~= commas_for_spaces(chars@.take(i + 1)));
            }
            i += 1;
        }
        proof {
            assert(chars@.take(chars.len() as int) == chars@);
        }
        let normalized = string_of(out.as_slice());
        semver::VersionReq::parse(normalized.as_str())
    }
}

} // verus!
