use swiss_knife::compare::{
    compare_digest, compare_head, compare_metadata, CompareError, CompareStep, FileComparison,
    HeadOutcome, RemoteObject,
};
use swiss_knife::digest::{digest_hex, FileDigest};

fn remote(length: Option<i64>, tag: Option<&str>) -> RemoteObject {
    RemoteObject { content_length: length, e_tag: tag.map(|tag| tag.to_string()) }
}

/// The whole comparison of a file with the given content.
fn compare(content: &[u8], head: HeadOutcome) -> Result<(FileComparison, bool), CompareError> {
    match compare_head(content.len() as u64, head)? {
        CompareStep::Decided(verdict) => Ok((verdict, false)),
        CompareStep::NeedsDigest { expected } => {
            Ok((compare_digest(&digest_hex(content), &expected), true))
        }
    }
}

#[test]
fn digest_of_hello_world() {
    assert_eq!(digest_hex(b"hello world"), "5eb63bbbe01eeed093cb22bb8f5acdc3");
}

#[test]
fn digest_of_nothing() {
    assert_eq!(digest_hex(b""), "d41d8cd98f00b204e9800998ecf8427e");
    assert_eq!(FileDigest::new().finish(), "d41d8cd98f00b204e9800998ecf8427e");
}

#[test]
fn digest_of_a_large_file_in_chunks() {
    let data = vec![0u8; 1024 * 1024];
    let mut digest = FileDigest::new();
    for chunk in data.chunks(8192) {
        digest.update(chunk);
    }
    let hex = digest.finish();
    assert_eq!(hex.len(), 32);
    assert_eq!(hex, digest_hex(&data));
    assert_eq!(hex, "b6d81b360a5672d80c27430f39153e2c");
}

#[test]
fn chunks_are_fed_in_order() {
    let mut digest = FileDigest::new();
    digest.update(b"hello ");
    digest.update(b"world");
    assert_eq!(digest.finish(), "5eb63bbbe01eeed093cb22bb8f5acdc3");
    let mut swapped = FileDigest::new();
    swapped.update(b"world");
    swapped.update(b"hello ");
    assert_ne!(swapped.finish(), "5eb63bbbe01eeed093cb22bb8f5acdc3");
}

#[test]
fn same_size_and_matching_digest_is_identical() {
    let head = HeadOutcome::Found(remote(Some(11), Some("\"5eb63bbbe01eeed093cb22bb8f5acdc3\"")));
    assert_eq!(compare(b"hello world", head).unwrap(), (FileComparison::Identical, true));
    let upper = HeadOutcome::Found(remote(Some(11), Some("5EB63BBBE01EEED093CB22BB8F5ACDC3")));
    assert_eq!(compare(b"hello world", upper).unwrap(), (FileComparison::Identical, true));
}

#[test]
fn same_size_and_other_digest_is_different() {
    let head = HeadOutcome::Found(remote(Some(11), Some("\"5eb63bbbe01eeed093cb22bb8f5acdc3\"")));
    assert_eq!(compare(b"hello_world", head).unwrap(), (FileComparison::Different, true));
}

#[test]
fn other_size_is_different_without_a_digest() {
    for tag in [None, Some("\"5eb63bbbe01eeed093cb22bb8f5acdc3\""), Some("\"abc-2\"")] {
        let head = HeadOutcome::Found(remote(Some(12), tag));
        assert_eq!(compare(b"hello world", head).unwrap(), (FileComparison::Different, false));
    }
    assert!(matches!(
        compare_metadata(5, &remote(None, Some("x"))),
        CompareStep::Decided(FileComparison::Different)
    ));
    assert!(matches!(
        compare_metadata(5, &remote(Some(-5), None)),
        CompareStep::Decided(FileComparison::Different)
    ));
}

#[test]
fn composite_fingerprint_counts_as_identical() {
    let head = HeadOutcome::Found(remote(Some(11), Some("\"9b2cf535f27731c974343645a3985328-2\"")));
    assert_eq!(compare(b"hello world", head).unwrap(), (FileComparison::Identical, false));
}

#[test]
fn no_fingerprint_counts_as_identical() {
    let head = HeadOutcome::Found(remote(Some(11), None));
    assert_eq!(compare(b"hello world", head).unwrap(), (FileComparison::Identical, false));
    let empty = HeadOutcome::Found(remote(None, None));
    assert_eq!(compare(b"", empty).unwrap(), (FileComparison::Identical, false));
}

#[test]
fn absent_object_is_not_found() {
    assert_eq!(
        compare(b"hello world", HeadOutcome::Absent).unwrap(),
        (FileComparison::NotFound, false)
    );
}

#[test]
fn failed_probe_is_a_transport_error() {
    match compare(b"hello world", HeadOutcome::Failed("dns".to_string())) {
        Err(CompareError::Transport(reason)) => assert_eq!(reason, "dns"),
        other => panic!("expected a transport error, got {:?}", other),
    }
}

#[test]
fn quotation_marks_are_taken_from_both_ends_of_the_fingerprint() {
    match compare_metadata(3, &remote(Some(3), Some("\"\"ab\"c\"\"\""))) {
        CompareStep::NeedsDigest { expected } => assert_eq!(expected, "ab\"c"),
        other => panic!("expected a digest to be asked for, got {:?}", other),
    }
    assert_eq!(compare_digest("AbC", "aBc"), FileComparison::Identical);
    assert_eq!(compare_digest("abc", "abd"), FileComparison::Different);
    assert_eq!(compare_digest("abc", "abcd"), FileComparison::Different);
    assert_eq!(compare_digest("", ""), FileComparison::Identical);
}
