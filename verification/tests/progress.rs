use swiss_knife::progress::{
    multipart_finished, multipart_started, part_finished, retry_announced, retry_started,
    single_shot_finished, single_shot_started, ProgressEvent,
};
use swiss_knife::upload::{content_length, put_error, PutStage, RetryError};

fn shown(events: Vec<ProgressEvent>) -> Vec<String> {
    events.iter().map(|event| format!("{:?}", event)).collect()
}

#[test]
fn a_transfer_in_one_request() {
    assert_eq!(
        shown(single_shot_started(2048, "a.mp4")),
        vec!["SetLength(2048)", "SetMessage(\"Uploading a.mp4\")", "SetPosition(0)"]
    );
    assert_eq!(
        shown(single_shot_finished(2048, "a.mp4")),
        vec!["SetPosition(2048)", "Finish(\"\u{2713} a.mp4\")"]
    );
}

#[test]
fn a_transfer_in_parts() {
    assert_eq!(
        shown(multipart_started(7, "a.mp4")),
        vec!["SetLength(7)", "SetPosition(0)", "SetMessage(\"Multipart upload a.mp4\")"]
    );
    assert_eq!(shown(part_finished(5)), vec!["SetPosition(5)"]);
    assert_eq!(shown(multipart_finished("a.mp4")), vec!["Finish(\"\u{2713} a.mp4\")"]);
}

#[test]
fn a_retry_starts_from_nothing() {
    assert_eq!(
        shown(retry_announced(2, "/v/a.mp4")),
        vec!["SetMessage(\"Retry 2/3 for /v/a.mp4\")"]
    );
    assert_eq!(shown(retry_started(0)), vec!["SetPosition(0)"]);
}

#[test]
fn errors_tell_the_retries_made() {
    let fatal = RetryError::Fatal { retries: 0, message: "denied".to_string() };
    assert_eq!(fatal.describe(), "denied");
    let late = RetryError::Fatal { retries: 2, message: "denied".to_string() };
    assert_eq!(late.describe(), "Upload failed after 2 retries: denied");
    let spent = RetryError::Exhausted { retries: 3, message: "timeout".to_string() };
    assert_eq!(spent.describe(), "Upload failed after 3 retries: timeout");
}

#[test]
fn the_length_that_a_request_announces() {
    assert_eq!(content_length(0), Some(0));
    assert_eq!(content_length(104_857_599), Some(104_857_599));
    assert_eq!(content_length(i64::MAX as u64), Some(i64::MAX));
    assert_eq!(content_length(i64::MAX as u64 + 1), None);
    assert_eq!(content_length(u64::MAX), None);
}

#[test]
fn failures_of_a_transfer_in_one_request() {
    assert_eq!(
        put_error(PutStage::Access, "/v/a.mp4", "No such file").cause,
        "Failed to access file: /v/a.mp4: No such file"
    );
    assert_eq!(
        put_error(PutStage::Stream, "/v/a.mp4", "denied").cause,
        "Failed to create byte stream from /v/a.mp4: denied"
    );
    assert_eq!(
        put_error(PutStage::Upload, "s3://b/k", "connection reset").cause,
        "Failed to upload to s3://b/k: connection reset"
    );
}
