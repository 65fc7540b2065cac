//! SHA-256 digests in lowercase hex, and the checks made against the digest
//! a lockfile or a registry records.

use vstd::prelude::*;
use sha2::Digest;
use crate::downloadable::opt_view;
use crate::text::digit_char;

verus! {

/// The SHA-256 digest of `data`, as computed by the `sha2` crate.
pub uninterp spec fn sha256_digest(data: Seq<u8>) -> Seq<u8>;

/// `sha2::Sha256::digest`: the 32-byte SHA-256 digest of `data`.  The value
/// is named, not stated; the contract says it depends on `data` alone and
/// has 32 bytes, as the crate's `OutputSize` of `U32` shows.
#[verifier::external_body]
fn sha256(data: &[u8]) -> (r: Vec<u8>)
    ensures
        r@ == sha256_digest(data@),
        r@.len() == 32,
{
    sha2::Sha256::digest(data).to_vec()
}

/// Lowercase hexadecimal digit for `n < 16`.
pub open spec fn hex_digit(n: nat) -> char {
    if n < 10 {
        digit_char(n)
    } else if n == 10 {
        'a'
    } else if n == 11 {
        'b'
    } else if n == 12 {
        'c'
    } else if n == 13 {
        'd'
    } else if n == 14 {
        'e'
    } else {
        'f'
    }
}

/// Two lowercase hex digits per byte, high nibble first.
pub open spec fn hex_lower(bytes: Seq<u8>) -> Seq<char>
    decreases bytes.len(),
{
    if bytes.len() == 0 {
        seq![]
    } else {
        seq![hex_digit((bytes[0] / 16) as nat), hex_digit((bytes[0] % 16) as nat)] + hex_lower(
            bytes.drop_first(),
        )
    }
}

/// Two hex digits per byte.
pub proof fn lemma_hex_lower_len(bytes: Seq<u8>)
    ensures
        hex_lower(bytes).len() == 2 * bytes.len(),
    decreases bytes.len(),
{
    if bytes.len() > 0 {
        lemma_hex_lower_len(bytes.drop_first());
    }
}

/// `hex::encode`: every byte as two lowercase hexadecimal digits, high
/// nibble first (the crate's `HEX_CHARS_LOWER` table "0123456789abcdef").
#[verifier::external_body]
fn hex_encode(data: &[u8]) -> (r: String)
    ensures
        r@ == hex_lower(data@),
{
    hex::encode(data)
}

/// The lowercase hex SHA-256 of `data`.
pub open spec fn sha256_hex_spec(data: Seq<u8>) -> Seq<char> {
    hex_lower(sha256_digest(data))
}

/// Lowercase hex SHA-256 of `data`, as minipot.lock records it.
pub fn sha256_hex(data: &[u8]) -> (r: String)
    ensures
        r@ == sha256_hex_spec(data@),
        r@.len() == 64,
{
    let digest = sha256(data);
    proof {
        lemma_hex_lower_len(digest@);
    }
    hex_encode(digest.as_slice())
}

/// A digest that differs from the recorded one.
pub struct Sha256Mismatch {
    pub expected: String,
    pub actual: String,
}

/// Checks `data` against an expected digest, when there is one.  Returns the
/// actual digest when it is accepted: always when nothing is expected,
/// otherwise when it equals the expected one.
pub fn verify_sha256(data: &[u8], expected: &Option<String>) -> (r: Result<String, Sha256Mismatch>)
    ensures
        match r {
            Ok(actual) => actual@ == sha256_hex_spec(data@) && actual@.len() == 64 && (match expected {
                Some(e) => e@ == actual@,
                None => true,
            }),
            Err(m) => expected matches Some(e) && m.expected@ == e@ && m.actual@
                == sha256_hex_spec(data@) && m.actual@.len() == 64 && e@ != m.actual@,
        },
{
    let actual = sha256_hex(data);
    match expected {
        Some(e) => {
            if *e == actual {
                Ok(actual)
            } else {
                Err(Sha256Mismatch { expected: e.clone(), actual })
            }
        },
        None => Ok(actual),
    }
}

/// Whether a file whose digest is `actual` satisfies an expected digest.
pub fn digest_accepted(expected: &Option<String>, actual: &String) -> (r: bool)
    ensures
        r == (match expected {
            Some(e) => e@ == actual@,
            None => true,
        }),
{
    match expected {
        Some(e) => *e == *actual,
        None => true,
    }
}

/// The places a plugin file is taken from, in the order they are tried: the
/// copy already in the plugins folder, the copy in the cache, a download.
#[derive(Clone, Copy)]
pub enum FileOrigin {
    Existing,
    Cached,
    Downloaded,
}

/// The decision on the copy found at one origin.
pub enum FileStep {
    /// Take this copy; its digest is recorded in the lock.
    Take { digest: String },
    /// No acceptable copy here: try the next origin.
    TryNext { origin: FileOrigin },
    /// The downloaded file does not have the expected digest.
    Reject { expected: String, actual: String },
}

/// Decides on the copy found at `origin`, whose digest is `digest` (`None`
/// when there is no copy there): a copy whose digest is accepted is taken;
/// otherwise the existing file gives way to the cache and the cache to a
/// download, and a download with another digest is refused.  Nothing is
/// taken, and so nothing written, before its digest was checked.
pub fn file_step(origin: FileOrigin, expected: &Option<String>, digest: Option<String>) -> (r: FileStep)
    requires
        origin is Downloaded ==> digest is Some,
    ensures
        match digest {
            Some(d) => if (match expected {
                Some(e) => e@ == d@,
                None => true,
            }) {
                r matches FileStep::Take { digest: t } && t@ == d@
            } else {
                match origin {
                    FileOrigin::Existing => r matches FileStep::TryNext { origin: FileOrigin::Cached },
                    FileOrigin::Cached => r matches FileStep::TryNext { origin: FileOrigin::Downloaded },
                    FileOrigin::Downloaded => r matches FileStep::Reject { expected: e, actual: a }
                        && Some(e@) == opt_view(*expected) && a@ == d@,
                }
            },
            None => match origin {
                FileOrigin::Existing => r matches FileStep::TryNext { origin: FileOrigin::Cached },
                _ => r matches FileStep::TryNext { origin: FileOrigin::Downloaded },
            },
        },
{
    match digest {
        Some(d) => {
            if digest_accepted(expected, &d) {
                FileStep::Take { digest: d }
            } else {
                match origin {
                    FileOrigin::Existing => FileStep::TryNext { origin: FileOrigin::Cached },
                    FileOrigin::Cached => FileStep::TryNext { origin: FileOrigin::Downloaded },
                    FileOrigin::Downloaded => {
                        let e = match expected {
                            Some(e) => e.clone(),
                            None => String::new(),
                        };
                        FileStep::Reject { expected: e, actual: d }
                    },
                }
            }
        },
        None => match origin {
            FileOrigin::Existing => FileStep::TryNext { origin: FileOrigin::Cached },
            _ => FileStep::TryNext { origin: FileOrigin::Downloaded },
        },
    }
}

} // verus!
