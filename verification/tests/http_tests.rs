use junco_launcher_utils::digest::DigestAlgorithm;
use junco_launcher_utils::digest::HasherEnum;
use junco_launcher_utils::http::FetchError;
use junco_launcher_utils::http::FetchPlan;
use junco_launcher_utils::http::check_status;
use junco_launcher_utils::http::digest_matches;
use junco_launcher_utils::http::finish_transfer;
use junco_launcher_utils::http::hasher_for_expected;
use junco_launcher_utils::http::plan_fetch;
use junco_launcher_utils::http::resolve_existing_check;
use junco_launcher_utils::http::select_algorithm;

use sha1::Digest;
use sha1::Sha1;
use sha2::Sha256;
use sha2::Sha512;

#[test]
fn verify_hash_returns_true_on_matching_hash() {
    let content = b"hash me";
    let hash = hex::encode(Sha1::digest(content));
    let mut hasher = hasher_for_expected(Some(&hash));
    hasher.update(content);
    assert!(digest_matches(hasher, &hash));
}

#[test]
fn verify_hash_returns_false_on_non_matching_hash() {
    let content = b"hash me";
    let wrong_hash = "0000000000000000000000000000000000000000";
    let mut hasher = hasher_for_expected(Some(wrong_hash));
    hasher.update(content);
    assert!(!digest_matches(hasher, wrong_hash));
}

#[test]
fn verify_hash_returns_true_for_sha256_and_sha512() {
    let content = b"abc123";

    let sha256 = hex::encode(Sha256::digest(content));
    let mut hasher = hasher_for_expected(Some(&sha256));
    hasher.update(content);
    assert!(digest_matches(hasher, &sha256));

    let sha512 = hex::encode(Sha512::digest(content));
    let mut hasher = hasher_for_expected(Some(&sha512));
    hasher.update(content);
    assert!(digest_matches(hasher, &sha512));
}

#[test]
fn verify_hash_returns_true_when_expected_is_empty_and_file_is_empty() {
    let hasher = hasher_for_expected(Some(""));
    assert!(digest_matches(hasher, ""));
}

#[test]
fn empty_expected_hash_matches_any_content() {
    let mut hasher = hasher_for_expected(Some(""));
    hasher.update(b"content of any length at all");
    assert!(digest_matches(hasher, ""));
}

#[test]
fn unsupported_expected_length_matches_nothing_but_empty() {
    let content = b"data";
    let odd = "abcde";
    let mut hasher = hasher_for_expected(Some(odd));
    hasher.update(content);
    assert!(!digest_matches(hasher, odd));
}

#[test]
fn select_algorithm_goes_by_length_alone() {
    assert_eq!(select_algorithm(Some(&"a".repeat(40))), DigestAlgorithm::Sha1);
    assert_eq!(select_algorithm(Some(&"a".repeat(64))), DigestAlgorithm::Sha256);
    assert_eq!(select_algorithm(Some(&"a".repeat(128))), DigestAlgorithm::Sha512);
    assert_eq!(select_algorithm(Some("")), DigestAlgorithm::NoDigest);
    assert_eq!(select_algorithm(Some(&"a".repeat(41))), DigestAlgorithm::NoDigest);
    assert_eq!(select_algorithm(None), DigestAlgorithm::NoDigest);
}

#[test]
fn chunked_update_equals_single_update() {
    let mut whole = HasherEnum::new(DigestAlgorithm::Sha1);
    whole.update(b"hello world");

    let mut parts = HasherEnum::new(DigestAlgorithm::Sha1);
    parts.update(b"hel");
    parts.update(b"lo wor");
    parts.update(b"ld");

    assert_eq!(whole.finalize(), parts.finalize());
}

#[test]
fn download_body_with_matching_sha1_succeeds() {
    let content = b"hello world";
    let hash = hex::encode(Sha1::digest(content));
    let mut hasher = hasher_for_expected(Some(&hash));
    hasher.update(content);
    assert!(finish_transfer(hasher, Some(&hash)).is_ok());
}

#[test]
fn download_body_with_zero_digest_reports_mismatch() {
    let content = b"hello world";
    let wrong_hash = "0000000000000000000000000000000000000000";
    let mut hasher = hasher_for_expected(Some(wrong_hash));
    hasher.update(content);
    let err = finish_transfer(hasher, Some(wrong_hash)).unwrap_err();
    match err {
        FetchError::HashMismatch { computed, expected } => {
            assert_eq!(computed, hex::encode(Sha1::digest(content)));
            assert_eq!(expected, wrong_hash);
        }
        other => panic!("expected a hash mismatch, got {:?}", other),
    }
}

#[test]
fn download_body_without_expected_hash_succeeds() {
    let mut hasher = hasher_for_expected(None);
    hasher.update(b"anything");
    assert!(finish_transfer(hasher, None).is_ok());
}

#[test]
fn fetch_with_overwrite_always_refetches() {
    assert_eq!(plan_fetch(true, true, true), FetchPlan::Refetch);
    assert_eq!(plan_fetch(true, true, false), FetchPlan::Refetch);
    assert_eq!(plan_fetch(false, true, true), FetchPlan::Refetch);
}

#[test]
fn existing_destination_without_hash_is_used_as_is() {
    assert_eq!(plan_fetch(true, false, false), FetchPlan::UseExisting);
}

#[test]
fn existing_destination_with_hash_is_checked_first() {
    assert_eq!(plan_fetch(true, false, true), FetchPlan::CheckExisting);
    assert_eq!(resolve_existing_check(true), FetchPlan::UseExisting);
}

#[test]
fn mismatched_existing_destination_falls_through_to_refetch() {
    assert_eq!(plan_fetch(true, false, true), FetchPlan::CheckExisting);
    assert_eq!(resolve_existing_check(false), FetchPlan::Refetch);
}

#[test]
fn missing_destination_is_always_fetched() {
    assert_eq!(plan_fetch(false, false, false), FetchPlan::Refetch);
    assert_eq!(plan_fetch(false, false, true), FetchPlan::Refetch);
}

#[test]
fn non_success_status_fails_with_its_code() {
    assert!(check_status(200).is_ok());
    assert!(check_status(204).is_ok());
    assert!(check_status(299).is_ok());
    match check_status(404) {
        Err(FetchError::HttpStatus(code)) => assert_eq!(code, 404),
        other => panic!("expected an http status error, got {:?}", other),
    }
    assert!(check_status(300).is_err());
    assert!(check_status(199).is_err());
    assert!(check_status(500).is_err());
}
