use foundry_compilers::{Command, Feature, PathSet, Solc, Stdio, Version, SOLC};

fn handle(version: &str) -> Solc {
    Solc::new_with_version("/usr/bin/solc".to_string(), Version::parse(version).unwrap())
}

fn args(list: &[&str]) -> Vec<String> {
    list.iter().map(|a| a.to_string()).collect()
}

#[test]
fn new_handle_has_no_paths() {
    let solc = handle("0.8.19");
    assert_eq!(solc.solc, "/usr/bin/solc");
    assert_eq!(solc.version, Version::new(0, 8, 19));
    assert_eq!(solc.base_path, None);
    assert!(solc.allow_paths.is_empty());
    assert!(solc.include_paths.is_empty());
    assert_eq!(SOLC, "solc");
}

#[test]
fn plain_handle_asks_for_standard_json_only() {
    let cmd = handle("0.8.19").configure_cmd();
    assert_eq!(
        cmd,
        Command {
            program: "/usr/bin/solc".to_string(),
            args: args(&["--standard-json"]),
            current_dir: None,
            stdin: Stdio::Piped,
            stdout: Stdio::Piped,
            stderr: Stdio::Piped,
        }
    );
}

#[test]
fn old_compiler_gets_no_path_flags_but_runs_in_base_path() {
    let mut solc = handle("0.6.8");
    solc.base_path = Some("/project".to_string());
    solc.include_paths.insert("/project/lib".to_string());
    let cmd = solc.configure_cmd();
    assert_eq!(cmd.args, args(&["--standard-json"]));
    assert_eq!(cmd.current_dir, Some("/project".to_string()));
}

#[test]
fn base_path_from_0_6_9_on() {
    let mut solc = handle("0.6.9");
    solc.base_path = Some("/project".to_string());
    solc.include_paths.insert("/project/lib".to_string());
    let cmd = solc.configure_cmd();
    assert_eq!(cmd.args, args(&["--base-path", "/project", "--standard-json"]));
    assert_eq!(cmd.current_dir, Some("/project".to_string()));

    let mut later = handle("0.8.7");
    later.base_path = Some("/project".to_string());
    later.include_paths.insert("/project/lib".to_string());
    assert_eq!(
        later.configure_cmd().args,
        args(&["--base-path", "/project", "--standard-json"])
    );
}

#[test]
fn include_paths_from_0_8_8_on_without_the_base_path() {
    let mut solc = handle("0.8.8");
    solc.base_path = Some("/project".to_string());
    solc.include_paths.insert("/project/lib".to_string());
    solc.include_paths.insert("/project".to_string());
    solc.include_paths.insert("/project/node_modules".to_string());
    let cmd = solc.configure_cmd();
    assert_eq!(
        cmd.args,
        args(&[
            "--include-path",
            "/project/lib",
            "--include-path",
            "/project/node_modules",
            "--base-path",
            "/project",
            "--standard-json",
        ])
    );
    assert_eq!(cmd.current_dir, Some("/project".to_string()));
}

#[test]
fn include_paths_need_a_base_path() {
    let mut solc = handle("0.8.19");
    solc.include_paths.insert("/project/lib".to_string());
    let cmd = solc.configure_cmd();
    assert_eq!(cmd.args, args(&["--standard-json"]));
    assert_eq!(cmd.current_dir, None);
}

#[test]
fn allow_paths_are_one_argument_joined_by_commas() {
    let mut solc = handle("0.5.0");
    solc.allow_paths.insert("/a".to_string());
    assert_eq!(solc.configure_cmd().args, args(&["--allow-paths", "/a", "--standard-json"]));
    solc.allow_paths.insert("/b c".to_string());
    solc.allow_paths.insert("/d".to_string());
    assert_eq!(
        solc.configure_cmd().args,
        args(&["--allow-paths", "/a,/b c,/d", "--standard-json"])
    );
}

#[test]
fn all_options_come_in_order() {
    let mut solc = handle("0.8.20+commit.a1b79de6.Linux.gcc");
    solc.base_path = Some("/p".to_string());
    solc.allow_paths.insert("/x".to_string());
    solc.allow_paths.insert("/y".to_string());
    solc.include_paths.insert("/p".to_string());
    solc.include_paths.insert("/q".to_string());
    let cmd = solc.configure_cmd();
    assert_eq!(
        cmd.args,
        args(&[
            "--allow-paths",
            "/x,/y",
            "--include-path",
            "/q",
            "--base-path",
            "/p",
            "--standard-json",
        ])
    );
    assert_eq!(cmd.stdin, Stdio::Piped);
    assert_eq!(cmd.stdout, Stdio::Piped);
    assert_eq!(cmd.stderr, Stdio::Piped);
    assert_eq!(cmd.program, "/usr/bin/solc");
}

#[test]
fn feature_gates_go_by_the_three_numbers() {
    assert_eq!(Feature::BasePath.minimum_version(), (0, 6, 9));
    assert_eq!(Feature::IncludePath.minimum_version(), (0, 8, 8));
    assert!(!handle("0.6.8").supports(Feature::BasePath));
    assert!(handle("0.6.9").supports(Feature::BasePath));
    assert!(handle("0.7.0").supports(Feature::BasePath));
    assert!(handle("1.0.0").supports(Feature::BasePath));
    assert!(!handle("0.8.7").supports(Feature::IncludePath));
    assert!(handle("0.8.8").supports(Feature::IncludePath));
    assert!(handle("0.8.8-nightly.1").supports(Feature::IncludePath));
    assert!(handle("0.9.0").supports(Feature::IncludePath));
    assert!(!handle("0.5.17").supports(Feature::IncludePath));
}

#[test]
fn version_short_drops_the_tags() {
    let solc = handle("0.8.19-ci.2+commit.7dd6d404");
    assert_eq!(solc.version_short(), Version::new(0, 8, 19));
    assert_eq!(solc.version.pre, "ci.2");
    assert_eq!(solc.version.build, "commit.7dd6d404");
    assert!(Version::new(0, 8, 19).same(&solc.version_short()));
    assert!(!solc.version.same(&solc.version_short()));
}

#[test]
fn version_is_at_least() {
    let v = Version::new(0, 7, 2);
    assert!(v.is_at_least(0, 7, 2));
    assert!(v.is_at_least(0, 7, 1));
    assert!(v.is_at_least(0, 6, 12));
    assert!(!v.is_at_least(0, 7, 3));
    assert!(!v.is_at_least(0, 8, 0));
    assert!(!v.is_at_least(1, 0, 0));
}

#[test]
fn path_set_keeps_each_path_once_in_order() {
    let mut set = PathSet::new();
    assert!(set.is_empty());
    assert_eq!(set.len(), 0);
    assert!(set.insert("b".to_string()));
    assert!(set.insert("a".to_string()));
    assert!(!set.insert("b".to_string()));
    assert_eq!(set.len(), 2);
    assert!(!set.is_empty());
    assert!(set.contains("a"));
    assert!(set.contains("b"));
    assert!(!set.contains("c"));
    assert_eq!(set.paths(), &vec!["b".to_string(), "a".to_string()]);
    assert_eq!(set.clone(), set);
}

#[test]
fn clone_of_a_handle_is_the_same_handle() {
    let mut solc = handle("0.8.19");
    solc.base_path = Some("/p".to_string());
    solc.allow_paths.insert("/x".to_string());
    let copy = solc.clone();
    assert_eq!(copy, solc);
    assert_eq!(copy.configure_cmd(), solc.configure_cmd());
}

#[test]
fn builders_give_a_new_handle() {
    let solc = handle("0.8.19")
        .with_base_path("/p".to_string())
        .with_allow_path("/x".to_string())
        .with_allow_path("/x".to_string())
        .with_include_path("/p".to_string())
        .with_include_path("/q".to_string());
    assert_eq!(solc.base_path, Some("/p".to_string()));
    assert_eq!(solc.allow_paths.paths(), &vec!["/x".to_string()]);
    assert_eq!(solc.include_paths.paths(), &vec!["/p".to_string(), "/q".to_string()]);
    assert_eq!(solc.solc, "/usr/bin/solc");
    assert_eq!(solc.version, Version::new(0, 8, 19));
    assert_eq!(
        solc.configure_cmd().args,
        args(&["--allow-paths", "/x", "--include-path", "/q", "--base-path", "/p", "--standard-json"])
    );
    let moved = solc.with_base_path("/q".to_string());
    assert_eq!(
        moved.configure_cmd().args,
        args(&["--allow-paths", "/x", "--include-path", "/p", "--base-path", "/q", "--standard-json"])
    );
    assert_eq!(moved.configure_cmd().current_dir, Some("/q".to_string()));
}

#[test]
fn version_query_has_one_argument() {
    let cmd = Solc::version_cmd("/svm/0.8.6/solc-0.8.6");
    assert_eq!(
        cmd,
        Command {
            program: "/svm/0.8.6/solc-0.8.6".to_string(),
            args: args(&["--version"]),
            current_dir: None,
            stdin: Stdio::Piped,
            stdout: Stdio::Piped,
            stderr: Stdio::Piped,
        }
    );
}

#[test]
fn evm_versions_begin_with_these_compilers() {
    use_all(&[
        (foundry_compilers::BYZANTIUM_SOLC, (0, 4, 21)),
        (foundry_compilers::CONSTANTINOPLE_SOLC, (0, 4, 22)),
        (foundry_compilers::PETERSBURG_SOLC, (0, 5, 5)),
        (foundry_compilers::ISTANBUL_SOLC, (0, 5, 14)),
        (foundry_compilers::BERLIN_SOLC, (0, 8, 5)),
        (foundry_compilers::LONDON_SOLC, (0, 8, 7)),
        (foundry_compilers::PARIS_SOLC, (0, 8, 18)),
        (foundry_compilers::SHANGHAI_SOLC, (0, 8, 20)),
        (foundry_compilers::CANCUN_SOLC, (0, 8, 24)),
    ]);
    assert_eq!(foundry_compilers::SOLC_EXTENSIONS, ["sol", "yul"]);
    let (major, minor, patch) = foundry_compilers::LONDON_SOLC;
    assert!(Version::new(0, 8, 7).is_at_least(major, minor, patch));
    assert!(!Version::new(0, 8, 6).is_at_least(major, minor, patch));
}

fn use_all(pairs: &[((u64, u64, u64), (u64, u64, u64))]) {
    for (constant, expected) in pairs {
        assert_eq!(constant, expected);
    }
}
