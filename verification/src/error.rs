//! What can go wrong with an upload, and what is said to the user about it.

use vstd::prelude::*;
use crate::text::{
    chars_of, contains, contains_text, decimal, lowercase_of, push_decimal, push_str, string_of,
};

verus! {

/// The kind of a failed file operation, as far as it is told apart here.
#[derive(Debug, Clone, Copy, PartialEq, Eq, Structural)]
pub enum IoErrorKind {
    NotFound,
    PermissionDenied,
    Other,
}

/// A failed file operation: its kind and what the system said of it.
#[derive(Debug, Clone)]
pub struct IoFailure {
    pub kind: IoErrorKind,
    pub message: String,
}

/// Errors that can occur during an upload.
#[derive(Debug, Clone)]
pub enum S3UploadError {
    /// The local file does not exist.
    FileNotFound { path: String },
    /// The local file may not be read.
    PermissionDenied { path: String },
    NetworkError { message: String },
    /// The store refused access to the bucket.
    S3AccessDenied { bucket: String, message: String },
    /// The file is larger than allowed.
    FileTooLarge { size: u64, max: u64 },
    InvalidS3Key { key: String },
    /// Another failed file operation, with what the system said of it.
    Io(String),
    /// Another failure reported by the store's client.
    AwsSdk(String),
    Other(String),
}

/// What an [`S3UploadError`] holds.
pub enum ErrorView {
    FileNotFound { path: Seq<char> },
    PermissionDenied { path: Seq<char> },
    NetworkError { message: Seq<char> },
    S3AccessDenied { bucket: Seq<char>, message: Seq<char> },
    FileTooLarge { size: u64, max: u64 },
    InvalidS3Key { key: Seq<char> },
    Io(Seq<char>),
    AwsSdk(Seq<char>),
    Other(Seq<char>),
}

impl View for S3UploadError {
    type V = ErrorView;

    open spec fn view(&self) -> ErrorView {
        match *self {
            S3UploadError::FileNotFound { path } => ErrorView::FileNotFound { path: path@ },
            S3UploadError::PermissionDenied { path } => ErrorView::PermissionDenied { path: path@ },
            S3UploadError::NetworkError { message } => ErrorView::NetworkError {
                message: message@,
            },
            S3UploadError::S3AccessDenied { bucket, message } => ErrorView::S3AccessDenied {
                bucket: bucket@,
                message: message@,
            },
            S3UploadError::FileTooLarge { size, max } => ErrorView::FileTooLarge { size, max },
            S3UploadError::InvalidS3Key { key } => ErrorView::InvalidS3Key { key: key@ },
            S3UploadError::Io(message) => ErrorView::Io(message@),
            S3UploadError::AwsSdk(message) => ErrorView::AwsSdk(message@),
            S3UploadError::Other(message) => ErrorView::Other(message@),
        }
    }
}

/// A lowercased message of the store's client speaks of refused access.
pub open spec fn speaks_of_denial(lowered: Seq<char>) -> bool {
    contains(lowered, "access denied"@) || contains(lowered, "forbidden"@)
}

/// The error for a failure that the store's client reported as `error`,
/// given `lowered`, its message in lowercase.
pub open spec fn aws_error(bucket: Seq<char>, error: Seq<char>, lowered: Seq<char>) -> ErrorView {
    if speaks_of_denial(lowered) {
        ErrorView::S3AccessDenied { bucket, message: error }
    } else {
        ErrorView::AwsSdk(error)
    }
}

/// The error for a failed operation on the file at `path`.
pub open spec fn io_error(kind: IoErrorKind, message: Seq<char>, path: Seq<char>) -> ErrorView {
    match kind {
        IoErrorKind::NotFound => ErrorView::FileNotFound { path },
        IoErrorKind::PermissionDenied => ErrorView::PermissionDenied { path },
        IoErrorKind::Other => ErrorView::Io(message),
    }
}

/// The error in one line.
pub open spec fn error_line(error: ErrorView) -> Seq<char> {
    match error {
        ErrorView::FileNotFound { path } => "File not found: "@ + path,
        ErrorView::PermissionDenied { path } => "Permission denied: "@ + path,
        ErrorView::NetworkError { message } => "Network error: "@ + message,
        ErrorView::S3AccessDenied { bucket, message } => "S3 access denied for bucket '"@ + bucket
            + "': "@ + message,
        ErrorView::FileTooLarge { size, max } => "File too large: "@ + decimal(size as nat)
            + " bytes (max: "@ + decimal(max as nat) + " bytes)"@,
        ErrorView::InvalidS3Key { key } => "Invalid S3 key: "@ + key,
        ErrorView::Io(message) => "IO error: "@ + message,
        ErrorView::AwsSdk(message) => "AWS error: "@ + message,
        ErrorView::Other(message) => message,
    }
}

/// The error with what the user may do about it. Errors for which there is
/// no advice are given in one line.
pub open spec fn error_advice(error: ErrorView) -> Seq<char> {
    match error {
        ErrorView::FileNotFound { path } => "File not found: "@ + path
            + "\n\nPossible solutions:\n  1. Check if the file path is correct\n  2. Verify the file exists: ls -la "@
            + path,
        ErrorView::PermissionDenied { path } => "Permission denied: "@ + path
            + "\n\nPossible solutions:\n  1. Check file permissions: ls -l "@ + path
            + "\n  2. Ensure you have read access to the file"@,
        ErrorView::S3AccessDenied { bucket, message } => "Access denied for bucket '"@ + bucket
            + "': "@ + message
            + "\n\nPossible solutions:\n  1. Check your AWS credentials: aws sts get-caller-identity\n  2. Verify bucket permissions for your IAM user/role\n  3. Ensure bucket exists: aws s3 ls s3://"@
            + bucket + "\n  4. Check AWS_REGION in .env matches bucket region"@,
        ErrorView::NetworkError { message } => "Network error: "@ + message
            + "\n\nPossible solutions:\n  1. Check your internet connection\n  2. Verify AWS region is correct in .env\n  3. Try again with --max-concurrent 1\n  4. Check if you're behind a proxy/firewall"@,
        ErrorView::FileTooLarge { size, max } => "File too large: "@ + decimal(size as nat)
            + " bytes (max: "@ + decimal(max as nat)
            + " bytes)\n\nPossible solutions:\n  1. Enable multipart upload for files > 100MB\n  2. Split the file into smaller chunks"@,
        _ => error_line(error),
    }
}

impl S3UploadError {
    /// The error for a failure that the store's client reported with the
    /// message `error`, whose lowercase form is `lowered`: refused access
    /// where the message speaks of it, a client error otherwise.
    pub fn from_lowered_aws_error(bucket: &str, error: &str, lowered: &str) -> (result: Self)
        ensures
            result@ == aws_error(bucket@, error@, lowered@),
    {
        let text = chars_of(lowered);
        if contains_text(&text, "access denied") || contains_text(&text, "forbidden") {
            S3UploadError::S3AccessDenied {
                bucket: string_of(&chars_of(bucket)),
                message: string_of(&chars_of(error)),
            }
        } else {
            S3UploadError::AwsSdk(string_of(&chars_of(error)))
        }
    }

    /// The error for a failure that the store's client reported with the
    /// message `error`. Letter case does not count.
    pub fn from_aws_error(bucket: &str, error: &str) -> (result: Self)
        ensures
            result@ == aws_error(bucket@, error@, lowercase_of(error@)),
    {
        let lowered = error.to_lowercase();
        S3UploadError::from_lowered_aws_error(bucket, error, lowered.as_str())
    }

    /// The error for a failed operation on the file at `path`.
    pub fn from_io_error(error: IoFailure, path: &str) -> (result: Self)
        ensures
            result@ == io_error(error.kind, error.message@, path@),
    {
        match error.kind {
            IoErrorKind::NotFound => S3UploadError::FileNotFound {
                path: string_of(&chars_of(path)),
            },
            IoErrorKind::PermissionDenied => S3UploadError::PermissionDenied {
                path: string_of(&chars_of(path)),
            },
            IoErrorKind::Other => S3UploadError::Io(error.message),
        }
    }

    /// The error in one line.
    pub fn message(&self) -> (text: String)
        ensures
            text@ == error_line(self@),
    {
        let mut out: Vec<char> = Vec::new();
        match self {
            S3UploadError::FileNotFound { path } => {
                push_str(&mut out, "File not found: ");
                push_str(&mut out, path.as_str());
            },
            S3UploadError::PermissionDenied { path } => {
                push_str(&mut out, "Permission denied: ");
                push_str(&mut out, path.as_str());
            },
            S3UploadError::NetworkError { message } => {
                push_str(&mut out, "Network error: ");
                push_str(&mut out, message.as_str());
            },
            S3UploadError::S3AccessDenied { bucket, message } => {
                push_str(&mut out, "S3 access denied for bucket '");
                push_str(&mut out, bucket.as_str());
                push_str(&mut out, "': ");
                push_str(&mut out, message.as_str());
            },
            S3UploadError::FileTooLarge { size, max } => {
                push_str(&mut out, "File too large: ");
                push_decimal(&mut out, *size);
                push_str(&mut out, " bytes (max: ");
                push_decimal(&mut out, *max);
                push_str(&mut out, " bytes)");
            },
            S3UploadError::InvalidS3Key { key } => {
                push_str(&mut out, "Invalid S3 key: ");
                push_str(&mut out, key.as_str());
            },
            S3UploadError::Io(message) => {
                push_str(&mut out, "IO error: ");
                push_str(&mut out, message.as_str());
            },
            S3UploadError::AwsSdk(message) => {
                push_str(&mut out, "AWS error: ");
                push_str(&mut out, message.as_str());
            },
            S3UploadError::Other(message) => {
                push_str(&mut out, message.as_str());
            },
        }
        assert(Seq::<char>::empty() + error_line(self@) =~= error_line(self@));
        string_of(&out)
    }

    /// The error with what the user may do about it.
    pub fn user_message(&self) -> (text: String)
        ensures
            text@ == error_advice(self@),
    {
        let mut out: Vec<char> = Vec::new();
        match self {
            S3UploadError::FileNotFound { path } => {
                push_str(&mut out, "File not found: ");
                push_str(&mut out, path.as_str());
                push_str(
                    &mut out,
                    "\n\nPossible solutions:\n  1. Check if the file path is correct\n  2. Verify the file exists: ls -la ",
                );
                push_str(&mut out, path.as_str());
            },
            S3UploadError::PermissionDenied { path } => {
                push_str(&mut out, "Permission denied: ");
                push_str(&mut out, path.as_str());
                push_str(
                    &mut out,
                    "\n\nPossible solutions:\n  1. Check file permissions: ls -l ",
                );
                push_str(&mut out, path.as_str());
                push_str(&mut out, "\n  2. Ensure you have read access to the file");
            },
            S3UploadError::S3AccessDenied { bucket, message } => {
                push_str(&mut out, "Access denied for bucket '");
                push_str(&mut out, bucket.as_str());
                push_str(&mut out, "': ");
                push_str(&mut out, message.as_str());
                push_str(
                    &mut out,
                    "\n\nPossible solutions:\n  1. Check your AWS credentials: aws sts get-caller-identity\n  2. Verify bucket permissions for your IAM user/role\n  3. Ensure bucket exists: aws s3 ls s3://",
                );
                push_str(&mut out, bucket.as_str());
                push_str(&mut out, "\n  4. Check AWS_REGION in .env matches bucket region");
            },
            S3UploadError::NetworkError { message } => {
                push_str(&mut out, "Network error: ");
                push_str(&mut out, message.as_str());
                push_str(
                    &mut out,
                    "\n\nPossible solutions:\n  1. Check your internet connection\n  2. Verify AWS region is correct in .env\n  3. Try again with --max-concurrent 1\n  4. Check if you're behind a proxy/firewall",
                );
            },
            S3UploadError::FileTooLarge { size, max } => {
                push_str(&mut out, "File too large: ");
                push_decimal(&mut out, *size);
                push_str(&mut out, " bytes (max: ");
                push_decimal(&mut out, *max);
                push_str(
                    &mut out,
                    " bytes)\n\nPossible solutions:\n  1. Enable multipart upload for files > 100MB\n  2. Split the file into smaller chunks",
                );
            },
            _ => {
                return self.message();
            },
        }
        assert(Seq::<char>::empty() + error_advice(self@) =~= error_advice(self@));
        string_of(&out)
    }
}

} // verus!
