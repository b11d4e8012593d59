use foundry_compilers::{installed_binary, InstallAction, InstallEvent, InstallPhase, Installation, Solc, Version};

#[test]
fn installation_that_succeeds() {
    let version = Version::new(0, 8, 6);
    let mut installation = Solc::install(&version);
    assert_eq!(installation.current_phase(), InstallPhase::Requested);

    let first = installation.step(InstallEvent::Begin);
    assert_eq!(first, InstallAction::Download { version: version.clone() });
    assert_eq!(installation.current_phase(), InstallPhase::Downloading);

    let second = installation.step(InstallEvent::Downloaded("/svm/0.8.6/solc-0.8.6".to_string()));
    let expected =
        Solc::new_with_version("/svm/0.8.6/solc-0.8.6".to_string(), version.clone());
    assert_eq!(second, InstallAction::Succeed { version: version.clone(), solc: expected });
    assert_eq!(installation.current_phase(), InstallPhase::Installed);
}

#[test]
fn installation_that_fails() {
    let version = Version::new(0, 8, 6);
    let mut installation = Installation::new(&version);
    assert_eq!(
        installation.step(InstallEvent::Begin),
        InstallAction::Download { version: version.clone() }
    );
    let action = installation.step(InstallEvent::DownloadFailed("no network".to_string()));
    assert_eq!(
        action,
        InstallAction::Fail { version: version.clone(), message: "no network".to_string() }
    );
    assert_eq!(installation.current_phase(), InstallPhase::Failed);
}

#[test]
fn events_out_of_turn_are_ignored() {
    let version = Version::new(0, 8, 6);
    let mut installation = Installation::new(&version);
    assert_eq!(
        installation.step(InstallEvent::Downloaded("/x".to_string())),
        InstallAction::Ignore
    );
    assert_eq!(
        installation.step(InstallEvent::DownloadFailed("early".to_string())),
        InstallAction::Ignore
    );
    assert_eq!(installation.current_phase(), InstallPhase::Requested);

    installation.step(InstallEvent::Begin);
    assert_eq!(installation.step(InstallEvent::Begin), InstallAction::Ignore);
    assert_eq!(installation.current_phase(), InstallPhase::Downloading);

    installation.step(InstallEvent::DownloadFailed("late".to_string()));
    assert_eq!(installation.step(InstallEvent::Begin), InstallAction::Ignore);
    assert_eq!(
        installation.step(InstallEvent::Downloaded("/x".to_string())),
        InstallAction::Ignore
    );
    assert_eq!(
        installation.step(InstallEvent::DownloadFailed("again".to_string())),
        InstallAction::Ignore
    );
    assert_eq!(installation.current_phase(), InstallPhase::Failed);
}

#[test]
fn each_attempt_reports_start_and_end_once() {
    let version = Version::new(0, 8, 6);
    let events = vec![
        InstallEvent::Downloaded("/early".to_string()),
        InstallEvent::Begin,
        InstallEvent::Begin,
        InstallEvent::Downloaded("/x".to_string()),
        InstallEvent::DownloadFailed("late".to_string()),
        InstallEvent::Downloaded("/y".to_string()),
        InstallEvent::Begin,
    ];
    let mut installation = Installation::new(&version);
    let mut starts = 0;
    let mut successes = 0;
    let mut failures = 0;
    for event in events {
        match installation.step(event) {
            InstallAction::Download { .. } => starts += 1,
            InstallAction::Succeed { solc, .. } => {
                assert_eq!(starts, 1);
                assert_eq!(solc.solc, "/x");
                successes += 1;
            }
            InstallAction::Fail { .. } => failures += 1,
            InstallAction::Ignore => {}
        }
    }
    assert_eq!((starts, successes, failures), (1, 1, 0));
}

#[test]
fn installed_binary_lies_under_its_version() {
    assert_eq!(
        installed_binary(&Version::new(0, 8, 6)),
        ("0.8.6".to_string(), "solc-0.8.6".to_string())
    );
    assert_eq!(
        installed_binary(&Version::parse("0.8.20-nightly.1").unwrap()),
        ("0.8.20-nightly.1".to_string(), "solc-0.8.20-nightly.1".to_string())
    );
}
