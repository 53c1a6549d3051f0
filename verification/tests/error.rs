use swiss_knife::error::{IoErrorKind, IoFailure, S3UploadError};

#[test]
fn refused_access_is_told_from_other_client_errors() {
    for message in ["Access Denied", "403 Forbidden", "ACCESS DENIED by policy", "forbidden"] {
        match S3UploadError::from_aws_error("bkt", message) {
            S3UploadError::S3AccessDenied { bucket, message: kept } => {
                assert_eq!(bucket, "bkt");
                assert_eq!(kept, message);
            }
            other => panic!("expected refused access, got {:?}", other),
        }
    }
    match S3UploadError::from_aws_error("bkt", "NoSuchKey") {
        S3UploadError::AwsSdk(message) => assert_eq!(message, "NoSuchKey"),
        other => panic!("expected a client error, got {:?}", other),
    }
    assert!(matches!(
        S3UploadError::from_lowered_aws_error("b", "Access Denied", "access granted"),
        S3UploadError::AwsSdk(_)
    ));
}

fn failure(kind: IoErrorKind) -> IoFailure {
    IoFailure { kind, message: "os said so".to_string() }
}

#[test]
fn file_errors_by_kind() {
    assert!(matches!(
        S3UploadError::from_io_error(failure(IoErrorKind::NotFound), "/a/b"),
        S3UploadError::FileNotFound { ref path } if path == "/a/b"
    ));
    assert!(matches!(
        S3UploadError::from_io_error(failure(IoErrorKind::PermissionDenied), "/a/b"),
        S3UploadError::PermissionDenied { ref path } if path == "/a/b"
    ));
    assert!(matches!(
        S3UploadError::from_io_error(failure(IoErrorKind::Other), "/a/b"),
        S3UploadError::Io(ref message) if message == "os said so"
    ));
}

#[test]
fn errors_in_one_line() {
    let cases = [
        (S3UploadError::FileNotFound { path: "p".into() }, "File not found: p"),
        (S3UploadError::PermissionDenied { path: "p".into() }, "Permission denied: p"),
        (S3UploadError::NetworkError { message: "m".into() }, "Network error: m"),
        (
            S3UploadError::S3AccessDenied { bucket: "b".into(), message: "m".into() },
            "S3 access denied for bucket 'b': m",
        ),
        (
            S3UploadError::FileTooLarge { size: 6_000_000_000, max: 5_368_709_120 },
            "File too large: 6000000000 bytes (max: 5368709120 bytes)",
        ),
        (S3UploadError::InvalidS3Key { key: "k".into() }, "Invalid S3 key: k"),
        (S3UploadError::Io("m".into()), "IO error: m"),
        (S3UploadError::AwsSdk("m".into()), "AWS error: m"),
        (S3UploadError::Other("m".into()), "m"),
    ];
    for (error, line) in cases {
        assert_eq!(error.message(), line);
    }
}

#[test]
fn errors_with_advice() {
    assert_eq!(
        S3UploadError::FileNotFound { path: "a.mp4".into() }.user_message(),
        "File not found: a.mp4\n\nPossible solutions:\n  1. Check if the file path is correct\n  2. Verify the file exists: ls -la a.mp4"
    );
    assert_eq!(
        S3UploadError::PermissionDenied { path: "a.mp4".into() }.user_message(),
        "Permission denied: a.mp4\n\nPossible solutions:\n  1. Check file permissions: ls -l a.mp4\n  2. Ensure you have read access to the file"
    );
    assert_eq!(
        S3UploadError::S3AccessDenied { bucket: "b".into(), message: "no".into() }.user_message(),
        "Access denied for bucket 'b': no\n\nPossible solutions:\n  1. Check your AWS credentials: aws sts get-caller-identity\n  2. Verify bucket permissions for your IAM user/role\n  3. Ensure bucket exists: aws s3 ls s3://b\n  4. Check AWS_REGION in .env matches bucket region"
    );
    assert_eq!(
        S3UploadError::NetworkError { message: "down".into() }.user_message(),
        "Network error: down\n\nPossible solutions:\n  1. Check your internet connection\n  2. Verify AWS region is correct in .env\n  3. Try again with --max-concurrent 1\n  4. Check if you're behind a proxy/firewall"
    );
    assert_eq!(
        S3UploadError::FileTooLarge { size: 2, max: 1 }.user_message(),
        "File too large: 2 bytes (max: 1 bytes)\n\nPossible solutions:\n  1. Enable multipart upload for files > 100MB\n  2. Split the file into smaller chunks"
    );
    assert_eq!(S3UploadError::InvalidS3Key { key: "k".into() }.user_message(), "Invalid S3 key: k");
    assert_eq!(S3UploadError::Io("m".into()).user_message(), "IO error: m");
    assert_eq!(S3UploadError::AwsSdk("m".into()).user_message(), "AWS error: m");
    assert_eq!(S3UploadError::Other("m".into()).user_message(), "m");
}
