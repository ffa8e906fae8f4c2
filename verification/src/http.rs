//! The content-integrity fetch engine.
//!
//! A fetch downloads a resource to a destination path and only counts as
//! successful once the transferred bytes match a caller-supplied hex
//! digest. This module holds everything the operation decides and
//! computes: the skip rule, the success rule for HTTP status codes, the
//! digest comparison for both the download path and the standalone
//! re-verification of a file already on disk, and the error taxonomy.
//! The surrounding process performs the network transfer and the disk
//! reads and writes, feeding each chunk to a `HasherEnum` as it arrives.

use vstd::prelude::*;

use crate::digest::DigestAlgorithm;
use crate::digest::HasherEnum;
use crate::digest::algorithm_for;
use crate::digest::digest_hex;
use crate::digest::hex_encode;
use crate::text::str_eq;

verus! {

/// How a fetch starts, decided once before any network or
/// filesystem-mutating action.
#[derive(Clone, Copy, Debug, PartialEq, Eq, Structural)]
pub enum FetchPlan {
    /// The destination already satisfies the request: finish with success
    /// and zero network requests.
    UseExisting,
    /// The destination exists and a digest was supplied: re-verify the
    /// file on disk first, then resolve with `resolve_existing_check`.
    CheckExisting,
    /// Perform the network transfer, overwriting the destination.
    Refetch,
}

/// Why a fetch failed. Every failure aborts the operation immediately;
/// whatever was written to the destination so far is left in place.
#[derive(Debug)]
pub enum FetchError {
    /// The HTTP request could not be completed (connect or stream
    /// failure); carries the transport's message.
    Transport(String),
    /// The server responded with a non-success status code.
    HttpStatus(u16),
    /// Directory or file creation, or a write, failed; carries the
    /// underlying message.
    Filesystem(String),
    /// The finalized digest of the transferred bytes does not equal the
    /// expected value; carries both hex strings.
    HashMismatch { computed: String, expected: String },
}

/// The view of an optional expected digest string.
pub open spec fn expected_view(expected: Option<&str>) -> Option<Seq<char>> {
    match expected {
        Some(s) => Some(s@),
        None => None,
    }
}

/// The algorithm an optional expected digest selects: by its character
/// length when present, `NoDigest` when absent.
pub open spec fn algorithm_for_expected(e: Option<Seq<char>>) -> DigestAlgorithm {
    match e {
        Some(s) => algorithm_for(s.len()),
        None => DigestAlgorithm::NoDigest,
    }
}

/// Selects the digest algorithm for an optional expected hash, by length
/// alone. The download path and the standalone re-verification both go
/// through this same rule, so the two call sites cannot drift apart.
pub fn select_algorithm(expected: Option<&str>) -> (alg: DigestAlgorithm)
    ensures
        alg == algorithm_for_expected(expected_view(expected)),
{
    match expected {
        Some(h) => {
            let n = h.unicode_len();
            if n == 40 {
                DigestAlgorithm::Sha1
            } else if n == 64 {
                DigestAlgorithm::Sha256
            } else if n == 128 {
                DigestAlgorithm::Sha512
            } else {
                DigestAlgorithm::NoDigest
            }
        },
        None => DigestAlgorithm::NoDigest,
    }
}

/// A fresh accumulator for an optional expected hash: the algorithm its
/// length selects, with nothing absorbed yet.
pub fn hasher_for_expected(expected: Option<&str>) -> (h: HasherEnum)
    ensures
        h.algorithm() == algorithm_for_expected(expected_view(expected)),
        h.absorbed() == Seq::<u8>::empty(),
{
    HasherEnum::new(select_algorithm(expected))
}

/// The skip rule, evaluated before any network or filesystem-mutating
/// action: an existing destination is used as-is when no overwrite is
/// forced and no digest was supplied, is re-verified first when a digest
/// was supplied, and is refetched otherwise.
pub fn plan_fetch(destination_exists: bool, overwrite: bool, has_expected: bool) -> (p: FetchPlan)
    ensures
        (p == FetchPlan::UseExisting <==> (destination_exists && !overwrite && !has_expected)),
        (p == FetchPlan::CheckExisting <==> (destination_exists && !overwrite && has_expected)),
        (p == FetchPlan::Refetch <==> (!destination_exists || overwrite)),
{
    if destination_exists && !overwrite {
        if has_expected {
            FetchPlan::CheckExisting
        } else {
            FetchPlan::UseExisting
        }
    } else {
        FetchPlan::Refetch
    }
}

/// Resolves `CheckExisting`: a destination whose digest matched is used
/// as-is; a mismatch is not an error but silently falls through to a
/// refetch that will overwrite the destination.
pub fn resolve_existing_check(digest_matched: bool) -> (p: FetchPlan)
    ensures
        (p == FetchPlan::UseExisting <==> digest_matched),
        (p == FetchPlan::Refetch <==> !digest_matched),
{
    if digest_matched {
        FetchPlan::UseExisting
    } else {
        FetchPlan::Refetch
    }
}

/// The success rule for HTTP status codes: exactly the 2xx range; any
/// other status fails the fetch and is carried in the error.
pub fn check_status(status: u16) -> (r: Result<(), FetchError>)
    ensures
        (r is Ok <==> (200 <= status && status < 300)),
        (r is Err ==> r->Err_0 == FetchError::HttpStatus(status)),
{
    if 200 <= status && status < 300 {
        Ok(())
    } else {
        Err(FetchError::HttpStatus(status))
    }
}

/// Consumes an accumulator and reports whether its finalized, hex-encoded
/// digest equals the expected string exactly (case-sensitive). This is
/// the comparison behind the standalone re-verification of a file on
/// disk: true iff the absorbed bytes hash to `expected` under the
/// accumulator's algorithm.
pub fn digest_matches(hasher: HasherEnum, expected: &str) -> (r: bool)
    ensures
        r == (digest_hex(hasher.algorithm(), hasher.absorbed()) == expected@),
{
    let digest = hasher.finalize();
    let computed = hex_encode(digest.as_slice());
    str_eq(computed.as_str(), expected)
}

/// Completes a transfer once the response body has been fully absorbed:
/// with no expected digest the fetch succeeds outright; otherwise the
/// finalized digest must equal the expected string, and a mismatch fails
/// with both the computed and the expected value.
pub fn finish_transfer(hasher: HasherEnum, expected: Option<&str>) -> (r: Result<(), FetchError>)
    ensures
        (expected_view(expected) is None ==> r is Ok),
        (expected_view(expected) matches Some(e) ==> (r is Ok <==> digest_hex(
            hasher.algorithm(),
            hasher.absorbed(),
        ) == e)),
        (r is Err ==> (expected_view(expected) matches Some(e) && (r->Err_0 matches
        FetchError::HashMismatch { computed, expected: want } && computed@ == digest_hex(
            hasher.algorithm(),
            hasher.absorbed(),
        ) && want@ == e))),
{
    match expected {
        Some(e) => {
            let digest = hasher.finalize();
            let computed = hex_encode(digest.as_slice());
            if str_eq(computed.as_str(), e) {
                Ok(())
            } else {
                Err(FetchError::HashMismatch { computed, expected: e.to_owned() })
            }
        },
        None => Ok(()),
    }
}

} // verus!
