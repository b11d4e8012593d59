//! Which compiler version answers a requirement.

use vstd::prelude::*;
use crate::catalog::{VersionCatalog, VersionCatalogView};
use crate::compile::Solc;
use crate::error::SolcError;
use crate::pragma::{find_version_pragma, version_pragma};
use crate::version::{
    ascending,
    commas_for_spaces,
    comparators,
    never_descends,
    older,
    satisfies,
    semver_requirement,
    views,
    SolData,
    Version,
    Comparator,
    VersionView,
};

verus! {

/// A source file.
#[derive(Debug, Clone, PartialEq, Eq)]
pub struct Source {
    /// The text of the file.
    pub content: String,
}

/// What is to be done to have the compiler that a requirement asks for.
#[derive(Debug, PartialEq, Eq)]
pub enum Resolution {
    /// The version is installed: use it.
    UseInstalled(Version),
    /// The version is released and newer than all that is installed:
    /// install it, then use it.
    InstallRelease(Version),
}

/// What a [`Resolution`] stands for.
pub enum ResolutionView {
    UseInstalled(VersionView),
    InstallRelease(VersionView),
}

impl View for Resolution {
    type V = ResolutionView;

    open spec fn view(&self) -> ResolutionView {
        match self {
            Resolution::UseInstalled(v) => ResolutionView::UseInstalled(v@),
            Resolution::InstallRelease(v) => ResolutionView::InstallRelease(v@),
        }
    }
}

impl Resolution {
    /// The version that the caller ends up with.
    pub fn version(&self) -> (r: &Version)
        ensures
            r@ == match self@ {
                ResolutionView::UseInstalled(v) => v,
                ResolutionView::InstallRelease(v) => v,
            },
    {
        match self {
            Resolution::UseInstalled(v) => v,
            Resolution::InstallRelease(v) => v,
        }
    }
}

/// The last version of the list that satisfies the requirement.
pub open spec fn last_match(versions: Seq<VersionView>, requirement: Seq<Comparator>) -> Option<
    VersionView,
>
    decreases versions.len(),
{
    if versions.len() == 0 {
        None
    } else if satisfies(versions.last(), requirement) {
        Some(versions.last())
    } else {
        last_match(versions.drop_last(), requirement)
    }
}

/// What is done with the best installed and the best released version:
/// the released one is installed where nothing installed will do or where
/// it is strictly newer than the installed one; `None` where neither is
/// there.
pub open spec fn decision(local: Option<VersionView>, remote: Option<VersionView>) -> Option<
    ResolutionView,
> {
    match (local, remote) {
        (Some(l), None) => Some(ResolutionView::UseInstalled(l)),
        (Some(l), Some(r)) => if older(l, r) {
            Some(ResolutionView::InstallRelease(r))
        } else {
            Some(ResolutionView::UseInstalled(l))
        },
        (None, Some(r)) => Some(ResolutionView::InstallRelease(r)),
        (None, None) => None,
    }
}

/// Whether `result` is what `decided` asks for: the resolution, or the
/// error that no version was found.
pub open spec fn resolved(result: Result<Resolution, SolcError>, decided: Option<ResolutionView>) -> bool {
    match decided {
        Some(d) => result matches Ok(r) && r@ == d,
        None => result matches Err(SolcError::VersionNotFound),
    }
}

/// The view of a version that may be missing.
pub open spec fn view_of(version: Option<Version>) -> Option<VersionView> {
    match version {
        Some(v) => Some(v@),
        None => None,
    }
}

/// What becomes of the requirement that a source text asks for: the
/// error that it has no pragma, the error that its expression is no
/// requirement, or the requirement.
pub open spec fn required(result: Result<semver::VersionReq, SolcError>, content: Seq<char>) -> bool {
    match version_pragma(content) {
        None => result matches Err(SolcError::PragmaNotFound),
        Some(e) => match semver_requirement(commas_for_spaces(e)) {
            Some(c) => result matches Ok(req) && comparators(req) == c,
            None => result matches Err(SolcError::VersionRequirementParseError(_)),
        },
    }
}

impl Solc {
    /// Reads the requirement of the version pragma of a source file.
    pub fn source_version_req(source: &Source) -> (r: Result<semver::VersionReq, SolcError>)
        ensures
            required(r, source.content@),
    {
        match find_version_pragma(source.content.as_str()) {
            None => Err(SolcError::PragmaNotFound),
            Some(expression) => match SolData::parse_version_req(expression.as_str()) {
                Ok(req) => Ok(req),
                Err(e) => Err(SolcError::VersionRequirementParseError(e)),
            },
        }
    }

    /// The last version of the list that satisfies the requirement. In a
    /// list that ascends this is the newest one that does.
    pub fn find_matching_installation(versions: &[Version], required_version: &semver::VersionReq) -> (r:
        Option<Version>)
        ensures
            view_of(r) == last_match(views(versions@), comparators(*required_version)),
    {
        let ghost all = views(versions@);
        let mut i: usize = versions.len();
        proof {
            assert(all.take(i as int) == all);
        }
        while i > 0
            invariant
                i <= versions.len(),
                all == views(versions@),
                last_match(all, comparators(*required_version)) == last_match(
                    all.take(i as int),
                    comparators(*required_version),
                ),
            decreases i,
        {
            proof {
                assert(all.take(i as int).last() == versions@[i - 1]@);
                assert(all.take(i as int).drop_last() == all.take(i - 1));
            }
            if versions[i - 1].satisfies(required_version) {
                return Some(versions[i - 1].clone());
            }
            i -= 1;
        }
        None
    }

    /// Decides between the best installed and the best released version.
    pub fn decide(local: Option<Version>, remote: Option<Version>) -> (r: Result<
        Resolution,
        SolcError,
    >)
        ensures
            resolved(r, decision(view_of(local), view_of(remote))),
    {
        match (local, remote) {
            (Some(l), None) => Ok(Resolution::UseInstalled(l)),
            (Some(l), Some(r)) => {
                if l.is_older_than(&r) {
                    Ok(Resolution::InstallRelease(r))
                } else {
                    Ok(Resolution::UseInstalled(l))
                }
            },
            (None, Some(r)) => Ok(Resolution::InstallRelease(r)),
            (None, None) => Err(SolcError::VersionNotFound),
        }
    }

    /// Finds the version to use for a requirement: the last installed one
    /// that satisfies it, unless the last released one that does is
    /// strictly newer, which is then to be installed. Fails where neither
    /// list holds a version that satisfies the requirement.
    pub fn ensure_installed(
        installed: &[Version],
        catalog: &VersionCatalog,
        sol_version: &semver::VersionReq,
    ) -> (r: Result<Resolution, SolcError>)
        ensures
            resolved(
                r,
                decision(
                    last_match(views(installed@), comparators(*sol_version)),
                    last_match(catalog@.versions, comparators(*sol_version)),
                ),
            ),
    {
        let local = Self::find_matching_installation(installed, sol_version);
        let remote = Self::find_matching_installation(catalog.versions().as_slice(), sol_version);
        Self::decide(local, remote)
    }

    /// Finds the version to use for a source file: reads the requirement
    /// of its version pragma, then decides as `ensure_installed` does.
    pub fn detect_version(source: &Source, installed: &[Version], catalog: &VersionCatalog) -> (r:
        Result<Resolution, SolcError>)
        ensures
            match version_pragma(source.content@) {
                None => r matches Err(SolcError::PragmaNotFound),
                Some(e) => match semver_requirement(commas_for_spaces(e)) {
                    Some(c) => resolved(
                        r,
                        decision(last_match(views(installed@), c), last_match(catalog@.versions, c)),
                    ),
                    None => r matches Err(SolcError::VersionRequirementParseError(_)),
                },
            },
    {
        match Self::source_version_req(source) {
            Ok(req) => Self::ensure_installed(installed, catalog, &req),
            Err(e) => Err(e),
        }
    }

    /// The versions that can be installed, oldest first.
    pub fn released_versions(catalog: &VersionCatalog) -> (r: Vec<Version>)
        ensures
            views(r@) == catalog@.versions,
            ascending(views(r@)),
    {
        let all = catalog.versions();
        let mut out: Vec<Version> = Vec::new();
        let mut i: usize = 0;
        while i < all.len()
            invariant
                i <= all.len(),
                out@.len() == i,
                forall|j: int| 0 <= j < i ==> out@[j]@ == all@[j]@,
            decreases all.len() - i,
        {
            out.push(all[i].clone());
            i += 1;
        }
        proof {
            assert(views(out@) =~= views(all@));
        }
        out
    }
}

/// The last match is one of the versions, satisfies the requirement, and
/// no version behind it does; there is none only where no version
/// satisfies the requirement.
pub proof fn lemma_last_match(versions: Seq<VersionView>, requirement: Seq<Comparator>)
    ensures
        match last_match(versions, requirement) {
            Some(v) => exists|i: int|
                0 <= i < versions.len() && versions[i] == v && satisfies(v, requirement)
                    && forall|j: int|
                    i < j < versions.len() ==> !satisfies(#[trigger] versions[j], requirement),
            None => forall|j: int|
                0 <= j < versions.len() ==> !satisfies(#[trigger] versions[j], requirement),
        },
    decreases versions.len(),
{
    if versions.len() > 0 {
        if satisfies(versions.last(), requirement) {
            assert(versions[versions.len() - 1] == versions.last());
        } else {
            let front = versions.drop_last();
            lemma_last_match(front, requirement);
            match last_match(front, requirement) {
                Some(v) => {
                    let i = choose|i: int|
                        0 <= i < front.len() && front[i] == v && satisfies(v, requirement)
                            && forall|j: int|
                            i < j < front.len() ==> !satisfies(#[trigger] front[j], requirement);
                    assert(versions[i] == v);
                    assert forall|j: int| i < j < versions.len() implies !satisfies(
                        #[trigger] versions[j],
                        requirement,
                    ) by {
                        if j < front.len() {
                            assert(front[j] == versions[j]);
                        }
                    }
                },
                None => {
                    assert forall|j: int| 0 <= j < versions.len() implies !satisfies(
                        #[trigger] versions[j],
                        requirement,
                    ) by {
                        if j < front.len() {
                            assert(front[j] == versions[j]);
                        }
                    }
                },
            }
        }
    }
}

/// In a list that ascends, the last match is the newest version that
/// satisfies the requirement: every other version of the list that
/// satisfies it is strictly older. There is no match only where no version
/// of the list satisfies the requirement.
pub proof fn lemma_last_match_is_newest(versions: Seq<VersionView>, requirement: Seq<Comparator>)
    requires
        ascending(versions),
    ensures
        match last_match(versions, requirement) {
            Some(v) => versions.contains(v) && satisfies(v, requirement) && forall|j: int|
                0 <= j < versions.len() && satisfies(#[trigger] versions[j], requirement)
                    ==> versions[j] == v || older(versions[j], v),
            None => forall|j: int|
                0 <= j < versions.len() ==> !satisfies(#[trigger] versions[j], requirement),
        },
{
    lemma_last_match(versions, requirement);
    match last_match(versions, requirement) {
        Some(v) => {
            let i = choose|i: int|
                0 <= i < versions.len() && versions[i] == v && satisfies(v, requirement)
                    && forall|j: int|
                    i < j < versions.len() ==> !satisfies(#[trigger] versions[j], requirement);
            assert forall|j: int|
                0 <= j < versions.len() && satisfies(
                    #[trigger] versions[j],
                    requirement,
                ) implies versions[j] == v || older(versions[j], v) by {
                if j < i {
                    assert(older(versions[j], versions[i]));
                }
            }
        },
        None => {},
    }
}

/// In a list that never descends, no version that satisfies the
/// requirement is strictly newer than the last match. There is no match
/// only where no version of the list satisfies the requirement.
pub proof fn lemma_last_match_has_none_newer(versions: Seq<VersionView>, requirement: Seq<Comparator>)
    requires
        never_descends(versions),
    ensures
        match last_match(versions, requirement) {
            Some(v) => versions.contains(v) && satisfies(v, requirement) && forall|j: int|
                0 <= j < versions.len() && satisfies(#[trigger] versions[j], requirement)
                    ==> versions[j] == v || !older(v, versions[j]),
            None => forall|j: int|
                0 <= j < versions.len() ==> !satisfies(#[trigger] versions[j], requirement),
        },
{
    lemma_last_match(versions, requirement);
    match last_match(versions, requirement) {
        Some(v) => {
            let i = choose|i: int|
                0 <= i < versions.len() && versions[i] == v && satisfies(v, requirement)
                    && forall|j: int|
                    i < j < versions.len() ==> !satisfies(#[trigger] versions[j], requirement);
            assert forall|j: int|
                0 <= j < versions.len() && satisfies(
                    #[trigger] versions[j],
                    requirement,
                ) implies versions[j] == v || !older(v, versions[j]) by {
                if j < i {
                    assert(!older(versions[i], versions[j]));
                }
            }
        },
        None => {},
    }
}

/// A released version is installed only where nothing installed satisfies
/// the requirement or where it is strictly newer than the installed
/// version that does; in every other case the installed version is used.
pub proof fn lemma_decision(local: Option<VersionView>, remote: Option<VersionView>)
    ensures
        match decision(local, remote) {
            Some(ResolutionView::InstallRelease(v)) => remote == Some(v) && (local matches Some(l)
                ==> older(l, v)),
            Some(ResolutionView::UseInstalled(v)) => local == Some(v) && (remote matches Some(r)
                ==> !older(v, r)),
            None => local.is_none() && remote.is_none(),
        },
{
}

/// Two answers to the same question are the same answer: what
/// `ensure_installed` returns is fixed by the installed versions, the
/// catalog and the requirement.
pub proof fn lemma_resolution_is_determined(
    installed: Seq<VersionView>,
    catalog: VersionCatalogView,
    requirement: Seq<Comparator>,
    first: Result<Resolution, SolcError>,
    second: Result<Resolution, SolcError>,
)
    requires
        resolved(
            first,
            decision(last_match(installed, requirement), last_match(catalog.versions, requirement)),
        ),
        resolved(
            second,
            decision(last_match(installed, requirement), last_match(catalog.versions, requirement)),
        ),
    ensures
        match (first, second) {
            (Ok(a), Ok(b)) => a@ == b@,
            (Err(a), Err(b)) => a == b,
            _ => false,
        },
{
}

} // verus!
