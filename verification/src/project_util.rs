//! What a temporary project needs to know before it touches the disk:
//! file names, the text of a placeholder contract, how files are copied,
//! and whether compiled artifacts are complete.

use vstd::prelude::*;
use crate::compile::{Command, CommandView, Stdio};
use crate::paths::texts;
use crate::text::{chars_of, has_at, occurs_at, string_of, trim, trimmed};

verus! {

/// The file name of a contract: the name without white space at either
/// end, followed by `.sol` unless it ends so already.
pub open spec fn file_name_of(name: Seq<char>) -> Seq<char> {
    let name = trim(name);
    if ".sol"@.is_suffix_of(name) {
        name
    } else {
        name + ".sol"@
    }
}

/// The name without the `.sol` it ends with, if it does.
pub open spec fn stem_of(name: Seq<char>) -> Seq<char> {
    if ".sol"@.is_suffix_of(name) {
        name.subrange(0, name.len() - 4)
    } else {
        name
    }
}

/// The text of the contract `name` without content, for compilers that
/// satisfy `version`.
pub open spec fn basic_contract_text(name: Seq<char>, version: Seq<char>) -> Seq<char> {
    "\n// SPDX-License-Identifier: UNLICENSED\npragma solidity "@ + version + ";\ncontract "@
        + stem_of(name) + " {}\n            "@
}

proof fn lemma_suffix(name: Seq<char>, suffix: Seq<char>)
    ensures
        suffix.is_suffix_of(name) == (suffix.len() <= name.len() && occurs_at(
            name,
            name.len() - suffix.len(),
            suffix,
        )),
{
    if suffix.len() <= name.len() {
        assert(name.subrange(name.len() - suffix.len(), name.len() as int) =~= name.skip(
            name.len() - suffix.len(),
        ));
    }
}

fn ends_with(name: &[char], suffix: &[char]) -> (r: bool)
    ensures
        r == suffix@.is_suffix_of(name@),
{
    proof {
        lemma_suffix(name@, suffix@);
    }
    suffix.len() <= name.len() && has_at(name, name.len() - suffix.len(), suffix)
}

/// The file name of the contract `name`.
pub fn contract_file_name(name: &str) -> (r: String)
    ensures
        r@ == file_name_of(name@),
{
    let chars = chars_of(name);
    let mut name = trimmed(chars.as_slice());
    let sol = chars_of(".sol");
    if !ends_with(name.as_slice(), sol.as_slice()) {
        let ghost before = name@;
        let mut k: usize = 0;
        while k < sol.len()
            invariant
                k <= sol.len(),
                name@ == before + sol@.take(k as int),
            decreases sol.len() - k,
        {
            name.push(sol[k]);
            proof {
                assert(sol@.take(k + 1) =~= sol@.take(k as int).push(sol@[k as int]));
            }
            k += 1;
        }
        proof {
            assert(sol@.take(sol.len() as int) == sol@);
        }
    }
    string_of(name.as_slice())
}

/// The text of a contract without content: a licence line, a version
/// pragma that asks for `version`, and the contract named as `name`
/// without the `.sol` it may end with.
pub fn basic_contract_source(name: &str, version: &str) -> (r: String)
    ensures
        r@ == basic_contract_text(name@, version@),
{
    let chars = chars_of(name);
    let sol = chars_of(".sol");
    proof {
        reveal_strlit(".sol");
    }
    let stem: String = if ends_with(chars.as_slice(), sol.as_slice()) {
        let mut out: Vec<char> = Vec::new();
        let mut k: usize = 0;
        while k < chars.len() - 4
            invariant
                4 <= chars.len(),
                k <= chars.len() - 4,
                out@ == chars@.subrange(0, k as int),
            decreases chars.len() - k,
        {
            out.push(chars[k]);
            proof {
                assert(chars@.subrange(0, k + 1) =~= chars@.subrange(0, k as int).push(
                    chars@[k as int],
                ));
            }
            k += 1;
        }
        string_of(out.as_slice())
    } else {
        name.to_owned()
    };
    let mut text = "\n// SPDX-License-Identifier: UNLICENSED\npragma solidity ".to_owned();
    text.append(version);
    text.append(";\ncontract ");
    text.append(stem.as_str());
    text.append(" {}\n            ");
    text
}

/// The address of the repository `repo` of an owner, written as
/// `owner/name`.
pub fn repository_url(repo: &str) -> (r: String)
    ensures
        r@ == "https://github.com/"@ + repo@,
{
    let mut url = "https://github.com/".to_owned();
    url.append(repo);
    url
}

/// The command that clones the repository at `repo_url` into
/// `target_dir`: `git clone`, the newest commit only, with the
/// repositories that it refers to. What the command writes is piped.
pub fn clone_remote(repo_url: &str, target_dir: &str) -> (r: Command)
    ensures
        r@ == (CommandView {
            program: "git"@,
            args: seq!["clone"@, "--depth"@, "1"@, "--recursive"@, repo_url@, target_dir@],
            current_dir: None,
            stdin: Stdio::Null,
            stdout: Stdio::Piped,
            stderr: Stdio::Piped,
        }),
{
    let mut args: Vec<String> = Vec::new();
    args.push("clone".to_owned());
    args.push("--depth".to_owned());
    args.push("1".to_owned());
    args.push("--recursive".to_owned());
    args.push(repo_url.to_owned());
    args.push(target_dir.to_owned());
    proof {
        assert(texts(args@) =~= seq![
            "clone"@,
            "--depth"@,
            "1"@,
            "--recursive"@,
            repo_url@,
            target_dir@,
        ]);
    }
    Command {
        program: "git".to_owned(),
        args,
        current_dir: None,
        stdin: Stdio::Null,
        stdout: Stdio::Piped,
        stderr: Stdio::Piped,
    }
}

/// How a directory is copied.
#[derive(Debug, Clone, Copy, PartialEq, Eq, Structural)]
pub struct DirCopyOptions {
    /// Whether a file that exists is overwritten.
    pub overwrite: bool,
    /// Whether a file that exists is skipped.
    pub skip_exist: bool,
    /// The size of the buffer, in bytes.
    pub buffer_size: usize,
    /// Whether the target directory is made where it is missing.
    pub copy_inside: bool,
    /// Whether only what the directory holds is copied, not the directory
    /// itself.
    pub content_only: bool,
    /// How many levels of directories are copied; 0 for all.
    pub depth: u64,
}

/// How a file is copied.
#[derive(Debug, Clone, Copy, PartialEq, Eq, Structural)]
pub struct FileCopyOptions {
    /// Whether a file that exists is overwritten.
    pub overwrite: bool,
    /// Whether a file that exists is skipped.
    pub skip_exist: bool,
    /// The size of the buffer, in bytes.
    pub buffer_size: usize,
}

/// How the directories of a project are copied: all that a directory
/// holds, over what is there, with a buffer of 64000 bytes.
pub fn dir_copy_options() -> (r: DirCopyOptions)
    ensures
        r == (DirCopyOptions {
            overwrite: true,
            skip_exist: false,
            buffer_size: 64000,
            copy_inside: true,
            content_only: true,
            depth: 0,
        }),
{
    DirCopyOptions {
        overwrite: true,
        skip_exist: false,
        buffer_size: 64000,
        copy_inside: true,
        content_only: true,
        depth: 0,
    }
}

/// How the files of a project are copied: over what is there, with a
/// buffer of 64000 bytes.
pub fn file_copy_options() -> (r: FileCopyOptions)
    ensures
        r == (FileCopyOptions { overwrite: true, skip_exist: false, buffer_size: 64000 }),
{
    FileCopyOptions { overwrite: true, skip_exist: false, buffer_size: 64000 }
}

/// What is read of a compiled contract: its interface, its creation code
/// and its runtime code, each as the text the compiler gave, where it gave
/// one.
#[derive(Debug, Clone, PartialEq, Eq)]
pub struct CompactContract {
    pub abi: Option<String>,
    pub bin: Option<String>,
    pub bin_runtime: Option<String>,
}

/// One of the three parts that every artifact should have.
#[derive(Debug, Clone, Copy, PartialEq, Eq, Structural)]
pub enum Essential {
    Abi,
    Bin,
    BinRuntime,
}

/// The first part that an artifact lacks.
#[derive(Debug, Clone, Copy, PartialEq, Eq, Structural)]
pub struct MissingEssential {
    /// The index of the artifact.
    pub artifact: usize,
    /// The part it lacks.
    pub part: Essential,
}

/// The first part that the contract lacks, in the order interface,
/// creation code, runtime code.
pub open spec fn missing_part(contract: CompactContract) -> Option<Essential> {
    if contract.abi.is_none() {
        Some(Essential::Abi)
    } else if contract.bin.is_none() {
        Some(Essential::Bin)
    } else if contract.bin_runtime.is_none() {
        Some(Essential::BinRuntime)
    } else {
        None
    }
}

/// The cache file and all the artifacts it refers to.
#[derive(Debug, Clone)]
pub struct ArtifactsSnapshot<T, S> {
    pub cache: S,
    pub artifacts: Vec<T>,
}

impl<S> ArtifactsSnapshot<CompactContract, S> {
    /// Whether `missing` is the first part that an artifact of the
    /// snapshot lacks.
    pub open spec fn first_missing(&self, missing: MissingEssential) -> bool {
        &&& missing.artifact < self.artifacts@.len()
        &&& missing_part(self.artifacts@[missing.artifact as int]) == Some(missing.part)
        &&& forall|i: int|
            0 <= i < missing.artifact ==> missing_part(#[trigger] self.artifacts@[i]).is_none()
    }

    /// Whether every artifact has its interface, its creation code and its
    /// runtime code.
    pub open spec fn essentials_present(&self) -> bool {
        forall|i: int|
            0 <= i < self.artifacts@.len() ==> missing_part(#[trigger] self.artifacts@[i]).is_none()
    }

    /// Makes sure that every artifact has its interface, its creation code
    /// and its runtime code; reports the first part that is missing.
    pub fn assert_artifacts_essentials_present(&self) -> (r: Result<(), MissingEssential>)
        ensures
            match r {
                Ok(()) => self.essentials_present(),
                Err(missing) => self.first_missing(missing),
            },
    {
        let mut i: usize = 0;
        while i < self.artifacts.len()
            invariant
                i <= self.artifacts.len(),
                forall|j: int| 0 <= j < i ==> missing_part(#[trigger] self.artifacts@[j]).is_none(),
            decreases self.artifacts.len() - i,
        {
            let c = &self.artifacts[i];
            if c.abi.is_none() {
                return Err(MissingEssential { artifact: i, part: Essential::Abi });
            }
            if c.bin.is_none() {
                return Err(MissingEssential { artifact: i, part: Essential::Bin });
            }
            if c.bin_runtime.is_none() {
                return Err(MissingEssential { artifact: i, part: Essential::BinRuntime });
            }
            i += 1;
        }
        Ok(())
    }
}

} // verus!
