//! The catalog of released compiler versions and their checksums.

use vstd::prelude::*;
use crate::version::{ascending, older, release, views, Version, VersionView};

verus! {

/// One released build: its version and the SHA-256 checksum of its binary.
#[derive(Debug, PartialEq, Eq)]
pub struct BuildInfo {
    pub version: Version,
    pub sha256: Vec<u8>,
}

/// What a [`BuildInfo`] stands for.
pub struct BuildInfoView {
    pub version: VersionView,
    pub sha256: Seq<u8>,
}

impl View for BuildInfo {
    type V = BuildInfoView;

    open spec fn view(&self) -> BuildInfoView {
        BuildInfoView { version: self.version@, sha256: self.sha256@ }
    }
}

/// The views of a list of builds, in order.
pub open spec fn build_views(builds: Seq<BuildInfo>) -> Seq<BuildInfoView> {
    builds.map_values(|b: BuildInfo| b@)
}

/// The checksum of the first build whose version is `version` without its
/// tags.
pub open spec fn recorded_checksum(builds: Seq<BuildInfoView>, version: VersionView) -> Option<
    Seq<u8>,
>
    decreases builds.len(),
{
    if builds.len() == 0 {
        None
    } else if builds[0].version == release(version.major, version.minor, version.patch) {
        Some(builds[0].sha256)
    } else {
        recorded_checksum(builds.drop_first(), version)
    }
}

/// Whether every version of the list is strictly older than all that
/// follow it.
pub fn is_ascending(versions: &[Version]) -> (r: bool)
    ensures
        r == ascending(views(versions@)),
{
    let mut j: usize = 0;
    while j < versions.len()
        invariant
            j <= versions.len(),
            forall|a: int, b: int| 0 <= a < b < j ==> older(versions@[a]@, versions@[b]@),
        decreases versions.len() - j,
    {
        let mut i: usize = 0;
        while i < j
            invariant
                i <= j < versions.len(),
                forall|a: int| 0 <= a < i ==> older(versions@[a]@, versions@[j as int]@),
            decreases j - i,
        {
            if !versions[i].is_older_than(&versions[j]) {
                proof {
                    assert(!older(views(versions@)[i as int], views(versions@)[j as int]));
                }
                return false;
            }
            i += 1;
        }
        j += 1;
    }
    proof {
        assert forall|a: int, b: int| 0 <= a < b < views(versions@).len() implies older(
            views(versions@)[a],
            views(versions@)[b],
        ) by {
            assert(older(versions@[a]@, versions@[b]@));
        }
    }
    true
}

/// The released versions, oldest first, the checksums of the released
/// builds, and whether the list of releases could be had at all. A catalog
/// that could not be had holds nothing.
#[derive(Debug, PartialEq, Eq)]
pub struct VersionCatalog {
    versions: Vec<Version>,
    builds: Vec<BuildInfo>,
    usable: bool,
}

/// What a [`VersionCatalog`] stands for.
pub struct VersionCatalogView {
    pub versions: Seq<VersionView>,
    pub builds: Seq<BuildInfoView>,
    pub usable: bool,
}

impl View for VersionCatalog {
    type V = VersionCatalogView;

    closed spec fn view(&self) -> VersionCatalogView {
        VersionCatalogView {
            versions: views(self.versions@),
            builds: build_views(self.builds@),
            usable: self.usable,
        }
    }
}

impl VersionCatalogView {
    /// What holds of every catalog: the versions ascend, and a catalog that
    /// is not usable is empty.
    pub open spec fn well_formed(self) -> bool {
        &&& ascending(self.versions)
        &&& !self.usable ==> self.versions.len() == 0 && self.builds.len() == 0
    }
}

impl VersionCatalog {
    #[verifier::type_invariant]
    spec fn valid(self) -> bool {
        self@.well_formed()
    }

    /// The usable catalog of these versions and builds: `None` unless the
    /// versions ascend.
    pub fn new(versions: Vec<Version>, builds: Vec<BuildInfo>) -> (r: Option<VersionCatalog>)
        ensures
            match r {
                Some(catalog) => ascending(views(versions@)) && catalog@ == (VersionCatalogView {
                    versions: views(versions@),
                    builds: build_views(builds@),
                    usable: true,
                }),
                None => !ascending(views(versions@)),
            },
    {
        if is_ascending(versions.as_slice()) {
            Some(VersionCatalog { versions, builds, usable: true })
        } else {
            None
        }
    }

    /// The catalog to go on with when the list of releases could not be
    /// had: empty and not usable.
    pub fn unavailable() -> (r: VersionCatalog)
        ensures
            r@ == (VersionCatalogView {
                versions: Seq::empty(),
                builds: Seq::empty(),
                usable: false,
            }),
    {
        let r = VersionCatalog { versions: Vec::new(), builds: Vec::new(), usable: false };
        proof {
            assert(views(r.versions@) =~= Seq::empty());
            assert(build_views(r.builds@) =~= Seq::empty());
        }
        r
    }

    /// Whether the list of releases could be had.
    pub fn is_usable(&self) -> (r: bool)
        ensures
            r == self@.usable,
            self@.well_formed(),
    {
        proof {
            use_type_invariant(self);
        }
        self.usable
    }

    /// The released versions, oldest first.
    pub fn versions(&self) -> (r: &Vec<Version>)
        ensures
            views(r@) == self@.versions,
            self@.well_formed(),
    {
        proof {
            use_type_invariant(self);
        }
        &self.versions
    }

    /// The checksum recorded for `version` without its tags.
    pub fn get_checksum(&self, version: &Version) -> (r: Option<Vec<u8>>)
        ensures
            match r {
                Some(sum) => recorded_checksum(self@.builds, version@) == Some(sum@),
                None => recorded_checksum(self@.builds, version@).is_none(),
            },
    {
        let wanted = version.short();
        let ghost all = build_views(self.builds@);
        proof {
            assert(all.skip(0) == all);
        }
        let mut i: usize = 0;
        while i < self.builds.len()
            invariant
                i <= self.builds.len(),
                all == build_views(self.builds@),
                wanted@ == release(version.major, version.minor, version.patch),
                recorded_checksum(all, version@) == recorded_checksum(
                    all.skip(i as int),
                    version@,
                ),
            decreases self.builds.len() - i,
        {
            proof {
                assert(all.skip(i as int)[0] == self.builds@[i as int]@);
                assert(all.skip(i as int).drop_first() == all.skip(i + 1));
            }
            if self.builds[i].version.same(&wanted) {
                return Some(self.builds[i].sha256.clone());
            }
            i += 1;
        }
        None
    }
}

impl Default for VersionCatalog {
    fn default() -> (r: VersionCatalog)
        ensures
            r@ == (VersionCatalogView {
                versions: Seq::empty(),
                builds: Seq::empty(),
                usable: false,
            }),
    {
        VersionCatalog::unavailable()
    }
}

} // verus!
