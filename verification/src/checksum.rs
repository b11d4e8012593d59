//! Whether an installed binary is the one that was released.

use vstd::prelude::*;
use crate::catalog::{recorded_checksum, VersionCatalog, VersionCatalogView};
use crate::compile::Solc;
use crate::error::SolcError;
use crate::version::{at_least, release, VersionView};

verus! {

/// The system a binary was built for.
#[derive(Debug, Clone, Copy, PartialEq, Eq, Structural)]
pub enum Platform {
    Linux,
    MacOs,
    Windows,
}

/// The SHA-256 digest of `data`, as the `sha2` crate computes it.
pub uninterp spec fn sha256(data: Seq<u8>) -> Seq<u8>;

/// Calls `sha2::Sha256::digest` and copies the 32 bytes it returns. The
/// result is, by definition, `sha256` of the data.
#[verifier::external_body]
fn sha256_digest(data: &[u8]) -> (r: Vec<u8>)
    ensures
        r@ == sha256(data@),
        r@.len() == 32,
{
    <sha2::Sha256 as sha2::Digest>::digest(data).to_vec()
}

/// The sixteen digits of lower-case hexadecimal writing.
pub open spec fn hex_digits() -> Seq<char> {
    seq!['0', '1', '2', '3', '4', '5', '6', '7', '8', '9', 'a', 'b', 'c', 'd', 'e', 'f']
}

/// The bytes in lower-case hexadecimal writing: for each byte two digits,
/// the higher one first.
pub open spec fn hex_lower(bytes: Seq<u8>) -> Seq<char> {
    Seq::new(
        2 * bytes.len(),
        |i: int|
            if i % 2 == 0 {
                hex_digits()[bytes[i / 2] as int / 16]
            } else {
                hex_digits()[bytes[i / 2] as int % 16]
            },
    )
}

/// Calls `alloy_primitives::hex::encode`, which writes each byte as two
/// lower-case hexadecimal digits.
#[verifier::external_body]
fn hex_encode(bytes: &[u8]) -> (r: String)
    ensures
        r@ == hex_lower(bytes@),
{
    alloy_primitives::hex::encode(bytes)
}

/// Different bytes are written differently.
pub proof fn lemma_hex_lower_injective(a: Seq<u8>, b: Seq<u8>)
    requires
        hex_lower(a) == hex_lower(b),
    ensures
        a == b,
{
    assert(hex_lower(a).len() == 2 * a.len());
    assert(hex_lower(b).len() == 2 * b.len());
    assert(a.len() == b.len());
    assert forall|k: int| 0 <= k < a.len() implies a[k] == b[k] by {
        let x = a[k] as int;
        let y = b[k] as int;
        assert(hex_lower(a)[2 * k] == hex_digits()[x / 16]);
        assert(hex_lower(b)[2 * k] == hex_digits()[y / 16]);
        assert(hex_lower(a)[2 * k + 1] == hex_digits()[x % 16]);
        assert(hex_lower(b)[2 * k + 1] == hex_digits()[y % 16]);
        lemma_hex_digits_distinct(x / 16, y / 16);
        lemma_hex_digits_distinct(x % 16, y % 16);
    }
    assert(a =~= b);
}

/// The sixteen digits differ from each other.
pub proof fn lemma_hex_digits_distinct(i: int, j: int)
    requires
        0 <= i < 16,
        0 <= j < 16,
        hex_digits()[i] == hex_digits()[j],
    ensures
        i == j,
{
}

/// Whether the two lists hold the same bytes.
pub fn same_bytes(a: &[u8], b: &[u8]) -> (r: bool)
    ensures
        r == (a@ == b@),
{
    if a.len() != b.len() {
        return false;
    }
    let mut i: usize = 0;
    while i < a.len()
        invariant
            a.len() == b.len(),
            i <= a.len(),
            forall|j: int| 0 <= j < i ==> a@[j] == b@[j],
        decreases a.len() - i,
    {
        if a[i] != b[i] {
            return false;
        }
        i += 1;
    }
    proof {
        assert(a@ =~= b@);
    }
    true
}

/// Whether the binaries of `version` for `platform` cannot be held to a
/// checksum: those for Windows before 0.7.2.
pub open spec fn unverifiable(platform: Platform, version: VersionView) -> bool {
    platform == Platform::Windows && !at_least(version, 0, 7, 2)
}

/// What the verification of a binary finds.
pub enum Verdict {
    /// Nothing speaks against the binary.
    Accepted,
    /// The catalog records no checksum for the version.
    Unknown,
    /// The catalog records this checksum, and the binary has another.
    Mismatch { expected: Seq<u8> },
}

/// What is found of a binary of `version` for `platform` whose digest is
/// `digest`. Without a usable catalog, and for the binaries that cannot be
/// held to a checksum, nothing is looked at.
pub open spec fn verdict(
    catalog: VersionCatalogView,
    platform: Platform,
    version: VersionView,
    digest: Seq<u8>,
) -> Verdict {
    if !catalog.usable || unverifiable(platform, version) {
        Verdict::Accepted
    } else {
        match recorded_checksum(catalog.builds, version) {
            None => Verdict::Unknown,
            Some(expected) => if expected == digest {
                Verdict::Accepted
            } else {
                Verdict::Mismatch { expected }
            },
        }
    }
}

/// Whether `result` is how `found` is reported for the binary at `file`.
pub open spec fn reports(
    result: Result<(), SolcError>,
    found: Verdict,
    version: VersionView,
    digest: Seq<u8>,
    file: Seq<char>,
) -> bool {
    match found {
        Verdict::Accepted => result is Ok,
        Verdict::Unknown => result matches Err(SolcError::ChecksumNotFound { version: v }) && v@
            == release(version.major, version.minor, version.patch),
        Verdict::Mismatch { expected } => result matches Err(
            SolcError::ChecksumMismatch { version: v, expected: e, detected: d, file: f },
        ) && v@ == release(version.major, version.minor, version.patch) && e@ == hex_lower(
            expected,
        ) && d@ == hex_lower(digest) && e@ != d@ && f@ == file,
    }
}

impl Solc {
    /// Holds the digest of the installed binary against the checksum that
    /// the catalog records for the compiler's version without its tags.
    /// `file` is where the binary lies; it is only reported.
    pub fn check_digest(
        &self,
        catalog: &VersionCatalog,
        platform: Platform,
        file: &str,
        digest: &[u8],
    ) -> (r: Result<(), SolcError>)
        ensures
            reports(r, verdict(catalog@, platform, self.version@, digest@), self.version@, digest@, file@),
    {
        let version = self.version_short();
        if !catalog.is_usable() {
            return Ok(());
        }
        match platform {
            Platform::Windows => {
                if !self.version.is_at_least(0, 7, 2) {
                    return Ok(());
                }
            },
            _ => {},
        }
        match catalog.get_checksum(&self.version) {
            None => Err(SolcError::ChecksumNotFound { version }),
            Some(found) => {
                if same_bytes(digest, found.as_slice()) {
                    Ok(())
                } else {
                    let expected = hex_encode(found.as_slice());
                    let detected = hex_encode(digest);
                    proof {
                        if expected@ == detected@ {
                            lemma_hex_lower_injective(found@, digest@);
                        }
                    }
                    Err(
                        SolcError::ChecksumMismatch {
                            version,
                            expected,
                            detected,
                            file: file.to_owned(),
                        },
                    )
                }
            },
        }
    }

    /// Verifies the installed binary, whose bytes are `content`, against
    /// the SHA-256 checksum that the catalog records for the compiler's
    /// version. Succeeds without looking at the bytes where the catalog is
    /// not usable, and for the binaries that cannot be held to a checksum.
    pub fn verify_checksum(
        &self,
        catalog: &VersionCatalog,
        platform: Platform,
        file: &str,
        content: &[u8],
    ) -> (r: Result<(), SolcError>)
        ensures
            reports(
                r,
                verdict(catalog@, platform, self.version@, sha256(content@)),
                self.version@,
                sha256(content@),
                file@,
            ),
            !catalog@.usable ==> r is Ok,
    {
        if !catalog.is_usable() {
            return Ok(());
        }
        let digest = sha256_digest(content);
        self.check_digest(catalog, platform, file, digest.as_slice())
    }
}

} // verus!
