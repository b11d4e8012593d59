//! Handles on installed `solc` compilers: which version a source file asks
//! for, which installed or released version answers it, the command line a
//! handle runs, what its output means, and whether an installed binary is
//! the one that was released.

pub mod catalog;
pub mod checksum;
pub mod compile;
pub mod error;
pub mod install;
pub mod many;
pub mod output;
pub mod paths;
pub mod pragma;
pub mod project_util;
pub mod resolve;
pub mod text;
pub mod version;

pub use catalog::{BuildInfo, VersionCatalog};
pub use checksum::Platform;
pub use compile::{
    Command, Feature, Solc, Stdio, BERLIN_SOLC, BYZANTIUM_SOLC, CANCUN_SOLC, CONSTANTINOPLE_SOLC,
    ISTANBUL_SOLC, LONDON_SOLC, PARIS_SOLC, PETERSBURG_SOLC, SHANGHAI_SOLC, SOLC, SOLC_EXTENSIONS,
};
pub use error::{Output, SolcError};
pub use install::{installed_binary, InstallAction, InstallEvent, InstallPhase, Installation};
pub use many::{Batch, BatchAction, CompiledMany, JobState};
pub use output::{compile_output, utf8_output, version_from_output, version_line};
pub use paths::PathSet;
pub use pragma::find_version_pragma;
pub use project_util::{
    basic_contract_source, clone_remote, contract_file_name, dir_copy_options, file_copy_options,
    repository_url, ArtifactsSnapshot, CompactContract, DirCopyOptions, Essential,
    FileCopyOptions, MissingEssential,
};
pub use resolve::{Resolution, Source};
pub use version::{SolData, Version, VersionView};
