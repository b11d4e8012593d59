//! The compiler handle and the command line it runs.

use vstd::prelude::*;
use crate::paths::{texts, PathSet};
use crate::version::{at_least, Version, VersionView};

verus! {

/// The name of the compiler's binary.
pub const SOLC: &'static str = "solc";

/// The extensions of the files that the compiler reads.
pub const SOLC_EXTENSIONS: [&'static str; 2] = ["sol", "yul"];

/// The first version, as `(major, minor, patch)`, that can be told to
/// compile for the Byzantium rules of the EVM.
pub const BYZANTIUM_SOLC: (u64, u64, u64) = (0, 4, 21);

/// The first version that compiles for Constantinople without fault.
pub const CONSTANTINOPLE_SOLC: (u64, u64, u64) = (0, 4, 22);

/// The first version that compiles for Petersburg.
pub const PETERSBURG_SOLC: (u64, u64, u64) = (0, 5, 5);

/// The first version that compiles for Istanbul.
pub const ISTANBUL_SOLC: (u64, u64, u64) = (0, 5, 14);

/// The first version that compiles for Berlin.
pub const BERLIN_SOLC: (u64, u64, u64) = (0, 8, 5);

/// The first version that compiles for London.
pub const LONDON_SOLC: (u64, u64, u64) = (0, 8, 7);

/// The first version that compiles for Paris.
pub const PARIS_SOLC: (u64, u64, u64) = (0, 8, 18);

/// The first version that compiles for Shanghai.
pub const SHANGHAI_SOLC: (u64, u64, u64) = (0, 8, 20);

/// The first version that compiles for Cancun.
pub const CANCUN_SOLC: (u64, u64, u64) = (0, 8, 24);

/// An option of the compiler that only some versions know.
#[derive(Debug, Clone, Copy, PartialEq, Eq, Structural)]
pub enum Feature {
    /// `--base-path`
    BasePath,
    /// `--include-path`
    IncludePath,
}

/// The first version that knows `feature`, as `(major, minor, patch)`.
pub open spec fn introduced_in(feature: Feature) -> (u64, u64, u64) {
    match feature {
        Feature::BasePath => (0, 6, 9),
        Feature::IncludePath => (0, 8, 8),
    }
}

/// Whether `version` knows `feature`: whether its numbers are at least
/// those of the version that introduced it.
pub open spec fn has_feature(version: VersionView, feature: Feature) -> bool {
    at_least(
        version,
        introduced_in(feature).0,
        introduced_in(feature).1,
        introduced_in(feature).2,
    )
}

impl Feature {
    /// The first version that knows the feature, as `(major, minor, patch)`.
    pub fn minimum_version(self) -> (r: (u64, u64, u64))
        ensures
            r == introduced_in(self),
    {
        match self {
            Feature::BasePath => (0, 6, 9),
            Feature::IncludePath => (0, 8, 8),
        }
    }
}

/// What becomes of one of a process's three streams.
#[derive(Debug, Clone, Copy, PartialEq, Eq, Structural)]
pub enum Stdio {
    /// The stream is connected to the caller by a pipe.
    Piped,
    /// The stream is the caller's own.
    Inherit,
    /// The stream is connected to nothing.
    Null,
}

/// A process to start: the program, its arguments in order, the directory
/// it runs in and what becomes of its streams.
#[derive(Debug, PartialEq, Eq)]
pub struct Command {
    pub program: String,
    pub args: Vec<String>,
    /// `None`: the directory of the caller.
    pub current_dir: Option<String>,
    pub stdin: Stdio,
    pub stdout: Stdio,
    pub stderr: Stdio,
}

/// What a [`Command`] stands for.
pub struct CommandView {
    pub program: Seq<char>,
    pub args: Seq<Seq<char>>,
    pub current_dir: Option<Seq<char>>,
    pub stdin: Stdio,
    pub stdout: Stdio,
    pub stderr: Stdio,
}

/// The text of a path that may be missing.
pub open spec fn text_of(path: Option<String>) -> Option<Seq<char>> {
    match path {
        Some(p) => Some(p@),
        None => None,
    }
}

impl View for Command {
    type V = CommandView;

    open spec fn view(&self) -> CommandView {
        CommandView {
            program: self.program@,
            args: texts(self.args@),
            current_dir: text_of(self.current_dir),
            stdin: self.stdin,
            stdout: self.stdout,
            stderr: self.stderr,
        }
    }
}

/// A `solc` binary, its version and the paths it is to be run with.
#[derive(Debug, PartialEq, Eq)]
pub struct Solc {
    /// Path to the `solc` executable.
    pub solc: String,
    /// The compiler's version.
    pub version: Version,
    /// Value of `--base-path`, and the directory the compiler runs in.
    pub base_path: Option<String>,
    /// Value of `--allow-paths`.
    pub allow_paths: PathSet,
    /// Values of `--include-path`.
    pub include_paths: PathSet,
}

/// What a [`Solc`] stands for.
pub struct SolcView {
    pub solc: Seq<char>,
    pub version: VersionView,
    pub base_path: Option<Seq<char>>,
    pub allow_paths: Seq<Seq<char>>,
    pub include_paths: Seq<Seq<char>>,
}

impl View for Solc {
    type V = SolcView;

    open spec fn view(&self) -> SolcView {
        SolcView {
            solc: self.solc@,
            version: self.version@,
            base_path: text_of(self.base_path),
            allow_paths: self.allow_paths@,
            include_paths: self.include_paths@,
        }
    }
}

impl Clone for Solc {
    fn clone(&self) -> (r: Solc)
        ensures
            r@ == self@,
    {
        Solc {
            solc: self.solc.clone(),
            version: self.version.clone(),
            base_path: match &self.base_path {
                Some(p) => Some(p.clone()),
                None => None,
            },
            allow_paths: self.allow_paths.clone(),
            include_paths: self.include_paths.clone(),
        }
    }
}

/// The parts, with `separator` between each two of them.
pub open spec fn joined(parts: Seq<Seq<char>>, separator: Seq<char>) -> Seq<char>
    decreases parts.len(),
{
    if parts.len() == 0 {
        Seq::empty()
    } else if parts.len() == 1 {
        parts[0]
    } else {
        joined(parts.drop_last(), separator) + separator + parts.last()
    }
}

/// Calls `itertools::Itertools::join` on the strings: it writes the first
/// one, then for each of the others the separator and the string.
#[verifier::external_body]
fn join(parts: &Vec<String>, separator: &str) -> (r: String)
    ensures
        r@ == joined(texts(parts@), separator@),
{
    itertools::Itertools::join(&mut parts.iter(), separator)
}

/// `flag` before each of the values: `flag v1 flag v2 ...`.
pub open spec fn flagged(flag: Seq<char>, values: Seq<Seq<char>>) -> Seq<Seq<char>>
    decreases values.len(),
{
    if values.len() == 0 {
        Seq::empty()
    } else {
        flagged(flag, values.drop_last()).push(flag).push(values.last())
    }
}

/// The paths but `path`, in their order.
pub open spec fn without(paths: Seq<Seq<char>>, path: Seq<char>) -> Seq<Seq<char>> {
    paths.filter(|p: Seq<char>| p != path)
}

/// The arguments that allow paths: none for an empty set, else the flag
/// and one argument that lists the paths with commas between them.
pub open spec fn allow_arguments(solc: SolcView) -> Seq<Seq<char>> {
    if solc.allow_paths.len() > 0 {
        seq!["--allow-paths"@, joined(solc.allow_paths, ","@)]
    } else {
        Seq::empty()
    }
}

/// The arguments for the include paths: none without a base path or where
/// the version does not know both options, else the flag before each
/// include path that is not the base path.
pub open spec fn include_arguments(solc: SolcView) -> Seq<Seq<char>> {
    match solc.base_path {
        Some(base) if has_feature(solc.version, Feature::BasePath) && has_feature(
            solc.version,
            Feature::IncludePath,
        ) => flagged("--include-path"@, without(solc.include_paths, base)),
        _ => Seq::empty(),
    }
}

/// The arguments for the base path: none without one or where the version
/// does not know the option, else the flag and the path.
pub open spec fn base_arguments(solc: SolcView) -> Seq<Seq<char>> {
    match solc.base_path {
        Some(base) if has_feature(solc.version, Feature::BasePath) => seq!["--base-path"@, base],
        _ => Seq::empty(),
    }
}

/// All arguments of a compiler run, in order.
pub open spec fn arguments(solc: SolcView) -> Seq<Seq<char>> {
    allow_arguments(solc) + include_arguments(solc) + base_arguments(solc)
        + seq!["--standard-json"@]
}

/// The command of a compiler run.
pub open spec fn command_of(solc: SolcView) -> CommandView {
    CommandView {
        program: solc.solc,
        args: arguments(solc),
        current_dir: solc.base_path,
        stdin: Stdio::Piped,
        stdout: Stdio::Piped,
        stderr: Stdio::Piped,
    }
}

impl Solc {
    /// The handle on the binary at `path`, known to be of `version`, with
    /// no base path and no allowed or include paths.
    pub fn new_with_version(path: String, version: Version) -> (r: Solc)
        ensures
            r@ == (SolcView {
                solc: path@,
                version: version@,
                base_path: None,
                allow_paths: Seq::empty(),
                include_paths: Seq::empty(),
            }),
    {
        let r = Solc {
            solc: path,
            version,
            base_path: None,
            allow_paths: PathSet::new(),
            include_paths: PathSet::new(),
        };
        proof {
            assert(r.allow_paths@ =~= Seq::empty());
            assert(r.include_paths@ =~= Seq::empty());
        }
        r
    }

    /// The numbers of the compiler's version, without its tags.
    pub fn version_short(&self) -> (r: Version)
        ensures
            r@ == crate::version::release(self.version.major, self.version.minor, self.version.patch),
    {
        self.version.short()
    }

    /// Whether the compiler's version knows `feature`.
    pub fn supports(&self, feature: Feature) -> (r: bool)
        ensures
            r == has_feature(self.version@, feature),
    {
        let (major, minor, patch) = feature.minimum_version();
        self.version.is_at_least(major, minor, patch)
    }

    /// The same handle with `base_path` as its base path.
    pub fn with_base_path(self, base_path: String) -> (r: Solc)
        ensures
            r@ == (SolcView { base_path: Some(base_path@), ..self@ }),
    {
        Solc {
            solc: self.solc,
            version: self.version,
            base_path: Some(base_path),
            allow_paths: self.allow_paths,
            include_paths: self.include_paths,
        }
    }

    /// The same handle that also allows `path`, unless it does already.
    pub fn with_allow_path(self, path: String) -> (r: Solc)
        ensures
            r@ == (SolcView {
                allow_paths: if self@.allow_paths.contains(path@) {
                    self@.allow_paths
                } else {
                    self@.allow_paths.push(path@)
                },
                ..self@
            }),
    {
        let mut allow_paths = self.allow_paths;
        allow_paths.insert(path);
        Solc {
            solc: self.solc,
            version: self.version,
            base_path: self.base_path,
            allow_paths,
            include_paths: self.include_paths,
        }
    }

    /// The same handle that also includes `path`, unless it does already.
    pub fn with_include_path(self, path: String) -> (r: Solc)
        ensures
            r@ == (SolcView {
                include_paths: if self@.include_paths.contains(path@) {
                    self@.include_paths
                } else {
                    self@.include_paths.push(path@)
                },
                ..self@
            }),
    {
        let mut include_paths = self.include_paths;
        include_paths.insert(path);
        Solc {
            solc: self.solc,
            version: self.version,
            base_path: self.base_path,
            allow_paths: self.allow_paths,
            include_paths,
        }
    }

    /// The command that asks the binary at `solc` for its version: the
    /// one argument `--version`, the directory of the caller, the three
    /// streams piped.
    pub fn version_cmd(solc: &str) -> (r: Command)
        ensures
            r@ == (CommandView {
                program: solc@,
                args: seq!["--version"@],
                current_dir: None,
                stdin: Stdio::Piped,
                stdout: Stdio::Piped,
                stderr: Stdio::Piped,
            }),
    {
        let mut args: Vec<String> = Vec::new();
        args.push("--version".to_owned());
        proof {
            assert(texts(args@) =~= seq!["--version"@]);
        }
        Command {
            program: solc.to_owned(),
            args,
            current_dir: None,
            stdin: Stdio::Piped,
            stdout: Stdio::Piped,
            stderr: Stdio::Piped,
        }
    }

    /// The command that runs the compiler on a JSON document: the allowed
    /// paths, the include paths and the base path as far as the version
    /// knows the options, then `--standard-json`; the base path as the
    /// working directory, whatever the version; the three streams piped.
    pub fn configure_cmd(&self) -> (r: Command)
        ensures
            r@ == command_of(self@),
    {
        let mut args: Vec<String> = Vec::new();
        if !self.allow_paths.is_empty() {
            args.push("--allow-paths".to_owned());
            args.push(join(self.allow_paths.paths(), ","));
        }
        proof {
            assert(texts(args@) =~= allow_arguments(self@));
        }
        let mut current_dir: Option<String> = None;
        if let Some(base_path) = &self.base_path {
            if self.supports(Feature::BasePath) {
                if self.supports(Feature::IncludePath) {
                    let paths = self.include_paths.paths();
                    let mut i: usize = 0;
                    while i < paths.len()
                        invariant
                            i <= paths.len(),
                            texts(paths@) == self.include_paths@,
                            texts(args@) == allow_arguments(self@) + flagged(
                                "--include-path"@,
                                without(texts(paths@).take(i as int), base_path@),
                            ),
                        decreases paths.len() - i,
                    {
                        let ghost before = texts(args@);
                        let ghost seen = texts(paths@).take(i as int);
                        proof {
                            assert(texts(paths@).take(i + 1) == seen.push(paths@[i as int]@));
                            lemma_without_push(seen, paths@[i as int]@, base_path@);
                        }
                        if paths[i] != *base_path {
                            args.push("--include-path".to_owned());
                            args.push(paths[i].clone());
                            proof {
                                let kept = without(seen, base_path@).push(paths@[i as int]@);
                                assert(kept.drop_last() == without(seen, base_path@));
                                assert(texts(args@) =~= before.push("--include-path"@).push(
                                    paths@[i as int]@,
                                ));
                            }
                        }
                        i += 1;
                    }
                    proof {
                        assert(texts(paths@).take(paths.len() as int) == texts(paths@));
                    }
                }
                proof {
                    assert(texts(args@) == allow_arguments(self@) + include_arguments(self@));
                }
                let ghost before = texts(args@);
                args.push("--base-path".to_owned());
                args.push(base_path.clone());
                proof {
                    assert(texts(args@) =~= before + base_arguments(self@));
                }
            }
            current_dir = Some(base_path.clone());
        }
        let ghost before = texts(args@);
        args.push("--standard-json".to_owned());
        proof {
            assert(texts(args@) =~= before + seq!["--standard-json"@]);
        }
        Command {
            program: self.solc.clone(),
            args,
            current_dir,
            stdin: Stdio::Piped,
            stdout: Stdio::Piped,
            stderr: Stdio::Piped,
        }
    }
}

/// A compiler older than 0.6.9 is given neither a base path nor include
/// paths, whatever the handle holds, and still runs in the base path.
pub proof fn lemma_old_compiler_gets_no_paths(solc: SolcView)
    requires
        solc.base_path is Some,
        !at_least(solc.version, 0, 6, 9),
    ensures
        command_of(solc).args == allow_arguments(solc) + seq!["--standard-json"@],
        command_of(solc).current_dir == solc.base_path,
{
    assert(arguments(solc) =~= allow_arguments(solc) + seq!["--standard-json"@]);
}

/// A compiler from 0.6.9 on and older than 0.8.8 is given the base path
/// and no include path, and runs in the base path.
pub proof fn lemma_base_path_without_include_paths(solc: SolcView)
    requires
        solc.base_path is Some,
        at_least(solc.version, 0, 6, 9),
        !at_least(solc.version, 0, 8, 8),
    ensures
        command_of(solc).args == allow_arguments(solc) + seq![
            "--base-path"@,
            solc.base_path->0,
            "--standard-json"@,
        ],
        command_of(solc).current_dir == solc.base_path,
{
    assert(arguments(solc) =~= allow_arguments(solc) + seq![
        "--base-path"@,
        solc.base_path->0,
        "--standard-json"@,
    ]);
}

/// A compiler from 0.8.8 on is given every include path but the one that
/// is the base path, each behind its flag and in the order of the set,
/// then the base path, and runs in the base path.
pub proof fn lemma_include_paths_leave_out_base_path(solc: SolcView)
    requires
        solc.base_path is Some,
        at_least(solc.version, 0, 8, 8),
    ensures
        command_of(solc).args == allow_arguments(solc) + flagged(
            "--include-path"@,
            without(solc.include_paths, solc.base_path->0),
        ) + seq!["--base-path"@, solc.base_path->0, "--standard-json"@],
        command_of(solc).current_dir == solc.base_path,
        !without(solc.include_paths, solc.base_path->0).contains(solc.base_path->0),
        forall|i: int|
            0 <= i < solc.include_paths.len() && solc.include_paths[i] != solc.base_path->0
                ==> without(solc.include_paths, solc.base_path->0).contains(
                #[trigger] solc.include_paths[i],
            ),
{
    let base = solc.base_path->0;
    let keep = |p: Seq<char>| p != base;
    let kept = without(solc.include_paths, base);
    assert(arguments(solc) =~= allow_arguments(solc) + flagged("--include-path"@, kept) + seq![
        "--base-path"@,
        base,
        "--standard-json"@,
    ]);
    if kept.contains(base) {
        let i = choose|i: int| 0 <= i < kept.len() && kept[i] == base;
        solc.include_paths.lemma_filter_pred(keep, i);
    }
    assert forall|i: int|
        0 <= i < solc.include_paths.len() && solc.include_paths[i] != base implies kept.contains(
        #[trigger] solc.include_paths[i],
    ) by {
        solc.include_paths.lemma_filter_contains(keep, i);
    }
}

/// Leaving a path out of a list that grew by one path.
pub proof fn lemma_without_push(paths: Seq<Seq<char>>, last: Seq<char>, path: Seq<char>)
    ensures
        without(paths.push(last), path) == if last != path {
            without(paths, path).push(last)
        } else {
            without(paths, path)
        },
{
    let keep = |p: Seq<char>| p != path;
    assert(paths.push(last).drop_last() == paths);
    reveal(Seq::filter);
    assert(paths.push(last).filter(keep) == if keep(last) {
        paths.filter(keep).push(last)
    } else {
        paths.filter(keep)
    });
}

} // verus!
