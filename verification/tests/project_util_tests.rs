use foundry_compilers::{
    basic_contract_source, clone_remote, contract_file_name, dir_copy_options, file_copy_options,
    repository_url, ArtifactsSnapshot, CompactContract, DirCopyOptions, Essential, FileCopyOptions,
    MissingEssential, Stdio,
};

fn contract(abi: bool, bin: bool, bin_runtime: bool) -> CompactContract {
    CompactContract {
        abi: abi.then(|| "[]".to_string()),
        bin: bin.then(|| "6080".to_string()),
        bin_runtime: bin_runtime.then(|| "6080".to_string()),
    }
}

#[test]
fn file_name_gets_its_extension() {
    assert_eq!(contract_file_name("Greeter"), "Greeter.sol");
    assert_eq!(contract_file_name("Greeter.sol"), "Greeter.sol");
    assert_eq!(contract_file_name("  lib/Greeter \n"), "lib/Greeter.sol");
    assert_eq!(contract_file_name("\tGreeter.sol  "), "Greeter.sol");
    assert_eq!(contract_file_name("Greeter.sol.bak"), "Greeter.sol.bak.sol");
    assert_eq!(contract_file_name("Greeter.SOL"), "Greeter.SOL.sol");
    assert_eq!(contract_file_name(".sol"), ".sol");
    assert_eq!(contract_file_name("sol"), "sol.sol");
    assert_eq!(contract_file_name(""), ".sol");
    assert_eq!(contract_file_name(" \u{a0} "), ".sol");
    assert_eq!(contract_file_name("a b"), "a b.sol");
}

#[test]
fn basic_contract_has_licence_pragma_and_name() {
    let expected = "\n// SPDX-License-Identifier: UNLICENSED\npragma solidity ^0.8.11;\ncontract Foo {}\n            ";
    assert_eq!(basic_contract_source("Foo", "^0.8.11"), expected);
    assert_eq!(basic_contract_source("Foo.sol", "^0.8.11"), expected);
    assert_eq!(
        basic_contract_source(".sol", "0.8.0"),
        "\n// SPDX-License-Identifier: UNLICENSED\npragma solidity 0.8.0;\ncontract  {}\n            "
    );
    assert_eq!(
        basic_contract_source("Foo.sol ", ""),
        "\n// SPDX-License-Identifier: UNLICENSED\npragma solidity ;\ncontract Foo.sol  {}\n            "
    );
}

#[test]
fn copy_options_are_fixed() {
    assert_eq!(
        dir_copy_options(),
        DirCopyOptions {
            overwrite: true,
            skip_exist: false,
            buffer_size: 64000,
            copy_inside: true,
            content_only: true,
            depth: 0,
        }
    );
    assert_eq!(
        file_copy_options(),
        FileCopyOptions { overwrite: true, skip_exist: false, buffer_size: 64000 }
    );
}

#[test]
fn clone_command_is_shallow_and_recursive() {
    let url = repository_url("transmissions11/solmate");
    assert_eq!(url, "https://github.com/transmissions11/solmate");
    let cmd = clone_remote(&url, "/tmp/checkout");
    assert_eq!(cmd.program, "git");
    assert_eq!(
        cmd.args,
        vec![
            "clone",
            "--depth",
            "1",
            "--recursive",
            "https://github.com/transmissions11/solmate",
            "/tmp/checkout"
        ]
    );
    assert_eq!(cmd.current_dir, None);
    assert_eq!((cmd.stdin, cmd.stdout, cmd.stderr), (Stdio::Null, Stdio::Piped, Stdio::Piped));
}

#[test]
fn complete_artifacts_are_accepted() {
    let snapshot = ArtifactsSnapshot {
        cache: (),
        artifacts: vec![contract(true, true, true), contract(true, true, true)],
    };
    assert_eq!(snapshot.assert_artifacts_essentials_present(), Ok(()));
    let empty: ArtifactsSnapshot<CompactContract, ()> =
        ArtifactsSnapshot { cache: (), artifacts: Vec::new() };
    assert_eq!(empty.assert_artifacts_essentials_present(), Ok(()));
}

#[test]
fn first_missing_part_is_reported() {
    let snapshot = ArtifactsSnapshot {
        cache: "cache".to_string(),
        artifacts: vec![
            contract(true, true, true),
            contract(true, false, false),
            contract(false, true, true),
        ],
    };
    assert_eq!(
        snapshot.assert_artifacts_essentials_present(),
        Err(MissingEssential { artifact: 1, part: Essential::Bin })
    );
    let no_abi = ArtifactsSnapshot { cache: (), artifacts: vec![contract(false, false, false)] };
    assert_eq!(
        no_abi.assert_artifacts_essentials_present(),
        Err(MissingEssential { artifact: 0, part: Essential::Abi })
    );
    let no_runtime = ArtifactsSnapshot { cache: (), artifacts: vec![contract(true, true, false)] };
    assert_eq!(
        no_runtime.assert_artifacts_essentials_present(),
        Err(MissingEssential { artifact: 0, part: Essential::BinRuntime })
    );
}
