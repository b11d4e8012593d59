use foundry_compilers::{
    find_version_pragma, Resolution, Solc, SolcError, Source, Version, VersionCatalog,
};
use semver::VersionReq;

fn versions(list: &[&str]) -> Vec<Version> {
    list.iter().map(|v| Version::parse(v).unwrap()).collect()
}

fn catalog(list: &[&str]) -> VersionCatalog {
    VersionCatalog::new(versions(list), Vec::new()).unwrap()
}

#[test]
fn finds_the_newest_match_in_an_ascending_list() {
    let installed = versions(&["0.7.6", "0.8.0", "0.8.19", "0.8.20", "0.9.0"]);
    let req = VersionReq::parse(">=0.8.0,<0.9.0").unwrap();
    assert_eq!(
        Solc::find_matching_installation(&installed, &req),
        Some(Version::new(0, 8, 20))
    );
}

#[test]
fn finds_the_last_match_not_the_first() {
    let installed = versions(&["0.8.1", "0.8.2", "0.8.3"]);
    let req = VersionReq::parse("^0.8.1").unwrap();
    assert_eq!(Solc::find_matching_installation(&installed, &req), Some(Version::new(0, 8, 3)));
}

#[test]
fn finds_the_last_match_of_a_list_that_does_not_ascend() {
    let installed = versions(&["0.8.3", "0.8.1", "0.7.0"]);
    let req = VersionReq::parse("^0.8.0").unwrap();
    assert_eq!(Solc::find_matching_installation(&installed, &req), Some(Version::new(0, 8, 1)));
}

#[test]
fn finds_nothing_where_nothing_matches() {
    let installed = versions(&["0.7.6", "0.8.0"]);
    let req = VersionReq::parse("=0.6.12").unwrap();
    assert_eq!(Solc::find_matching_installation(&installed, &req), None);
    assert_eq!(Solc::find_matching_installation(&[], &req), None);
}

#[test]
fn exact_requirement_matches_one_version_only() {
    let req = VersionReq::parse("=0.8.19").unwrap();
    assert!(Version::new(0, 8, 19).satisfies(&req));
    assert!(!Version::new(0, 8, 20).satisfies(&req));
    assert!(!Version::new(0, 8, 18).satisfies(&req));
}

#[test]
fn build_metadata_does_not_hinder_a_match() {
    let req = VersionReq::parse(">=0.8.0").unwrap();
    let version = Version::parse("0.8.19+commit.7dd6d404.Linux.gcc").unwrap();
    assert!(version.satisfies(&req));
}

#[test]
fn tags_that_semver_refuses_match_nothing() {
    let req = VersionReq::parse("*").unwrap();
    let mut version = Version::new(0, 8, 19);
    assert!(version.satisfies(&req));
    version.build = "Linux.g++".to_string();
    assert!(!version.satisfies(&req));
}

#[test]
fn local_only_uses_local() {
    let installed = versions(&["0.8.10", "0.8.19"]);
    let req = VersionReq::parse("^0.8.0").unwrap();
    let found = Solc::ensure_installed(&installed, &catalog(&["0.7.0"]), &req).unwrap();
    assert_eq!(found, Resolution::UseInstalled(Version::new(0, 8, 19)));
    assert_eq!(found.version(), &Version::new(0, 8, 19));
}

#[test]
fn newer_release_is_installed() {
    let installed = versions(&["0.8.10", "0.8.19"]);
    let req = VersionReq::parse("^0.8.0").unwrap();
    let found =
        Solc::ensure_installed(&installed, &catalog(&["0.8.19", "0.8.20", "0.9.0"]), &req).unwrap();
    assert_eq!(found, Resolution::InstallRelease(Version::new(0, 8, 20)));
    assert_eq!(found.version(), &Version::new(0, 8, 20));
}

#[test]
fn equal_release_is_not_installed() {
    let installed = versions(&["0.8.10", "0.8.19"]);
    let req = VersionReq::parse("^0.8.0").unwrap();
    let found = Solc::ensure_installed(&installed, &catalog(&["0.8.0", "0.8.19"]), &req).unwrap();
    assert_eq!(found, Resolution::UseInstalled(Version::new(0, 8, 19)));
}

#[test]
fn older_release_is_not_installed() {
    let installed = versions(&["0.8.19"]);
    let req = VersionReq::parse("^0.8.0").unwrap();
    let found = Solc::ensure_installed(&installed, &catalog(&["0.8.0", "0.8.18"]), &req).unwrap();
    assert_eq!(found, Resolution::UseInstalled(Version::new(0, 8, 19)));
}

#[test]
fn remote_only_is_installed() {
    let req = VersionReq::parse("=0.8.20").unwrap();
    let installed = versions(&["0.8.19"]);
    let found = Solc::ensure_installed(&installed, &catalog(&["0.8.19", "0.8.20"]), &req).unwrap();
    assert_eq!(found, Resolution::InstallRelease(Version::new(0, 8, 20)));
}

#[test]
fn no_match_anywhere_is_version_not_found() {
    let req = VersionReq::parse("=0.4.11").unwrap();
    let installed = versions(&["0.8.19"]);
    let found = Solc::ensure_installed(&installed, &catalog(&["0.8.19", "0.8.20"]), &req);
    assert!(matches!(found, Err(SolcError::VersionNotFound)));
}

#[test]
fn unusable_catalog_offers_nothing() {
    let req = VersionReq::parse("^0.8.0").unwrap();
    let missing = VersionCatalog::unavailable();
    assert!(!missing.is_usable());
    let found = Solc::ensure_installed(&versions(&["0.8.19"]), &missing, &req).unwrap();
    assert_eq!(found, Resolution::UseInstalled(Version::new(0, 8, 19)));
    let nothing = Solc::ensure_installed(&[], &VersionCatalog::default(), &req);
    assert!(matches!(nothing, Err(SolcError::VersionNotFound)));
}

#[test]
fn resolving_twice_gives_the_same_version() {
    let installed = versions(&["0.8.10", "0.8.19"]);
    let released = catalog(&["0.8.19", "0.8.20", "0.9.0"]);
    let req = VersionReq::parse("^0.8.0").unwrap();
    let first = Solc::ensure_installed(&installed, &released, &req).unwrap();
    let second = Solc::ensure_installed(&installed, &released, &req).unwrap();
    assert_eq!(first, second);
}

#[test]
fn decide_follows_the_table() {
    let old = Version::new(0, 8, 1);
    let new = Version::new(0, 8, 2);
    assert_eq!(
        Solc::decide(Some(old.clone()), None).unwrap(),
        Resolution::UseInstalled(old.clone())
    );
    assert_eq!(
        Solc::decide(Some(old.clone()), Some(new.clone())).unwrap(),
        Resolution::InstallRelease(new.clone())
    );
    assert_eq!(
        Solc::decide(Some(new.clone()), Some(old.clone())).unwrap(),
        Resolution::UseInstalled(new.clone())
    );
    assert_eq!(
        Solc::decide(Some(new.clone()), Some(new.clone())).unwrap(),
        Resolution::UseInstalled(new.clone())
    );
    assert_eq!(
        Solc::decide(None, Some(old.clone())).unwrap(),
        Resolution::InstallRelease(old.clone())
    );
    assert!(matches!(Solc::decide(None, None), Err(SolcError::VersionNotFound)));
}

#[test]
fn a_release_is_newer_than_its_prerelease() {
    let pre = Version::parse("0.8.20-nightly.2023").unwrap();
    let release = Version::new(0, 8, 20);
    assert!(pre.is_older_than(&release));
    assert!(!release.is_older_than(&pre));
    assert!(!release.is_older_than(&release));
    assert!(Version::new(0, 8, 9).is_older_than(&Version::new(0, 8, 10)));
}

#[test]
fn catalog_must_ascend() {
    assert!(VersionCatalog::new(versions(&["0.8.1", "0.8.0"]), Vec::new()).is_none());
    assert!(VersionCatalog::new(versions(&["0.8.1", "0.8.1"]), Vec::new()).is_none());
    let good = VersionCatalog::new(versions(&["0.8.0", "0.8.1", "0.8.10"]), Vec::new()).unwrap();
    assert!(good.is_usable());
    assert_eq!(Solc::released_versions(&good), versions(&["0.8.0", "0.8.1", "0.8.10"]));
    assert!(Solc::released_versions(&VersionCatalog::unavailable()).is_empty());
}

#[test]
fn finds_the_pragma() {
    let text = "// SPDX-License-Identifier: MIT\npragma solidity ^0.8.10;\ncontract A {}\n";
    assert_eq!(find_version_pragma(text), Some("^0.8.10".to_string()));
}

#[test]
fn finds_the_first_pragma_only() {
    let text = "pragma solidity >=0.6.2 <0.8.21;\npragma solidity ^0.5.0;";
    assert_eq!(find_version_pragma(text), Some(">=0.6.2 <0.8.21".to_string()));
}

#[test]
fn pragma_needs_its_words_its_blanks_and_its_semicolon() {
    assert_eq!(find_version_pragma(""), None);
    assert_eq!(find_version_pragma("contract A {}"), None);
    assert_eq!(find_version_pragma("pragma solidity ^0.8.0"), None);
    assert_eq!(find_version_pragma("pragmasolidity ^0.8.0;"), None);
    assert_eq!(find_version_pragma("pragma solidity^0.8.0;"), None);
    assert_eq!(find_version_pragma("pragma solidity ;"), None);
    assert_eq!(find_version_pragma("pragma solidity ^0.8.0\n;"), None);
    assert_eq!(find_version_pragma("pragma abicoder v2;"), None);
    assert_eq!(
        find_version_pragma("pragma \t\n solidity \r\n 0.8.0 ;"),
        Some("0.8.0 ".to_string())
    );
    assert_eq!(
        find_version_pragma("pragma solidity ^0.8.0\n; pragma solidity 0.7.0;"),
        Some("0.7.0".to_string())
    );
}

#[test]
fn reads_the_requirement_of_a_source() {
    let source = Source { content: "pragma solidity >=0.8.0 <0.9.0;\ncontract A {}".to_string() };
    let req = Solc::source_version_req(&source).unwrap();
    assert_eq!(req, VersionReq::parse(">=0.8.0,<0.9.0").unwrap());
}

#[test]
fn source_without_pragma_is_pragma_not_found() {
    let source = Source { content: "contract A {}".to_string() };
    assert!(matches!(Solc::source_version_req(&source), Err(SolcError::PragmaNotFound)));
}

#[test]
fn source_with_bad_pragma_is_a_parse_error() {
    let source = Source { content: "pragma solidity not-a-version;".to_string() };
    assert!(matches!(
        Solc::source_version_req(&source),
        Err(SolcError::VersionRequirementParseError(_))
    ));
    let doubled = Source { content: "pragma solidity >=0.8.0  <0.9.0;".to_string() };
    assert!(matches!(
        Solc::source_version_req(&doubled),
        Err(SolcError::VersionRequirementParseError(_))
    ));
}

#[test]
fn detects_the_version_of_a_source() {
    let source = Source { content: "pragma solidity ^0.8.0;".to_string() };
    let installed = versions(&["0.7.6", "0.8.19"]);
    let found = Solc::detect_version(&source, &installed, &catalog(&["0.8.20"])).unwrap();
    assert_eq!(found, Resolution::InstallRelease(Version::new(0, 8, 20)));
    let none = Source { content: String::new() };
    assert!(matches!(
        Solc::detect_version(&none, &installed, &catalog(&["0.8.20"])),
        Err(SolcError::PragmaNotFound)
    ));
}

#[test]
fn prerelease_satisfies_only_a_requirement_that_names_one() {
    let nightly = Version::parse("0.8.20-nightly.2023").unwrap();
    assert!(!nightly.satisfies(&VersionReq::parse(">=0.8.0").unwrap()));
    assert!(nightly.satisfies(&VersionReq::parse(">=0.8.20-alpha").unwrap()));
    assert!(!nightly.satisfies(&VersionReq::STAR));
    assert!(Version::new(0, 8, 20).satisfies(&VersionReq::STAR));
}
