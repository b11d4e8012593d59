//! The errors of the library.

use vstd::prelude::*;
use crate::version::Version;

verus! {

/// What a finished process leaves behind.
#[derive(Debug, Clone, PartialEq, Eq)]
pub struct Output {
    /// The exit code; `None` where the process ended without one.
    pub status: Option<i32>,
    /// Everything the process wrote to its standard output.
    pub stdout: Vec<u8>,
    /// Everything the process wrote to its standard error.
    pub stderr: Vec<u8>,
}

impl Output {
    /// Whether the process ended with exit code 0.
    pub open spec fn succeeded(&self) -> bool {
        self.status == Some(0i32)
    }

    /// Whether the process ended with exit code 0.
    pub fn success(&self) -> (r: bool)
        ensures
            r == self.succeeded(),
    {
        match self.status {
            Some(code) => code == 0,
            None => false,
        }
    }
}

/// Why an operation of the library failed.
#[derive(Debug)]
pub enum SolcError {
    /// The source text holds no version pragma.
    PragmaNotFound,
    /// The expression of the version pragma is no requirement.
    VersionRequirementParseError(semver::Error),
    /// The compiler's answer to `--version` is no version.
    VersionParseError(semver::Error),
    /// No installed and no released version satisfies the requirement.
    VersionNotFound,
    /// The catalog of releases knows no checksum for the version.
    ChecksumNotFound { version: Version },
    /// The installed binary is not the one that was released. The two
    /// checksums are written in lower-case hexadecimal digits.
    ChecksumMismatch { version: Version, expected: String, detected: String, file: String },
    /// The compiler's output is not UTF-8.
    InvalidUtf8,
    /// The compiler did not exit with code 0.
    InvocationFailed { stdout: Vec<u8>, stderr: Vec<u8>, status: Option<i32> },
    /// Anything else, in words.
    Message(String),
}

impl SolcError {
    /// An error that holds `message`.
    pub fn msg(message: &str) -> (r: SolcError)
        ensures
            r matches SolcError::Message(m) && m@ == message@,
    {
        SolcError::Message(message.to_owned())
    }

    /// The error for a compiler run that failed: it keeps what the process
    /// wrote and its exit code.
    pub fn solc_output(output: &Output) -> (r: SolcError)
        ensures
            r matches SolcError::InvocationFailed { stdout, stderr, status } && stdout@
                == output.stdout@ && stderr@ == output.stderr@ && status == output.status,
    {
        SolcError::InvocationFailed {
            stdout: output.stdout.clone(),
            stderr: output.stderr.clone(),
            status: output.status,
        }
    }
}

} // verus!
