use swiss_knife::multipart::{
    count_parts, select_strategy, transfer_error, MultipartSession, PartRequest, SessionState,
    TransferStage, TransferStrategy, MULTIPART_THRESHOLD, PART_SIZE,
};

const MIB: u64 = 1024 * 1024;

#[test]
fn threshold_belongs_to_multipart() {
    assert_eq!(MULTIPART_THRESHOLD, 100 * MIB);
    assert_eq!(select_strategy(0), TransferStrategy::SingleShot);
    assert_eq!(select_strategy(MULTIPART_THRESHOLD - 1), TransferStrategy::SingleShot);
    assert_eq!(select_strategy(MULTIPART_THRESHOLD), TransferStrategy::Multipart);
    assert_eq!(select_strategy(MULTIPART_THRESHOLD + 1), TransferStrategy::Multipart);
    assert_eq!(select_strategy(u64::MAX), TransferStrategy::Multipart);
}

#[test]
fn part_counts_round_up() {
    assert_eq!(PART_SIZE, 10 * MIB);
    assert_eq!(count_parts(0), 0);
    assert_eq!(count_parts(1), 1);
    assert_eq!(count_parts(PART_SIZE), 1);
    assert_eq!(count_parts(PART_SIZE + 1), 2);
    assert_eq!(count_parts(150 * MIB), 15);
    assert_eq!(count_parts(u64::MAX), u64::MAX / PART_SIZE + 1);
}

/// Sends a file of `size` bytes through a session; returns the parts asked for.
fn send(size: u64) -> (MultipartSession, Vec<PartRequest>) {
    let mut session = MultipartSession::new(size);
    assert_eq!(session.state(), SessionState::Created);
    assert!(session.initiated(Some("id-1".to_string())).is_ok());
    assert_eq!(session.state(), SessionState::Uploading);
    let mut parts = Vec::new();
    let mut progress = vec![session.uploaded_bytes()];
    while let Some(part) = session.next_part() {
        parts.push(part);
        session.part_uploaded(Some(format!("tag-{}", part.number)));
        progress.push(session.uploaded_bytes());
    }
    assert_eq!(progress[0], 0);
    assert!(progress.windows(2).all(|pair| pair[0] < pair[1]));
    assert_eq!(*progress.last().unwrap(), size);
    (session, parts)
}

#[test]
fn a_150_mib_file_goes_in_15_parts_and_one_completion() {
    let (mut session, parts) = send(150 * MIB);
    assert_eq!(parts.len(), 15);
    for (i, part) in parts.iter().enumerate() {
        assert_eq!(part.number, i as u64 + 1);
        assert_eq!(part.offset, i as u64 * PART_SIZE);
        assert_eq!(part.length, PART_SIZE);
    }
    assert_eq!(session.parts_done(), 15);
    let request = session.completion();
    assert_eq!(request.upload_id, "id-1");
    assert_eq!(request.parts.len(), 15);
    for (i, part) in request.parts.iter().enumerate() {
        assert_eq!(part.part_number, i as u64 + 1);
        assert_eq!(part.e_tag, format!("tag-{}", i + 1));
    }
    session.completed();
    assert_eq!(session.state(), SessionState::Completed);
    assert_eq!(session.uploaded_bytes(), 150 * MIB);
    assert_eq!(session.size(), 150 * MIB);
}

#[test]
fn the_last_part_holds_the_remainder() {
    let (_, parts) = send(25 * MIB + 7);
    assert_eq!(
        parts,
        vec![
            PartRequest { number: 1, offset: 0, length: PART_SIZE },
            PartRequest { number: 2, offset: PART_SIZE, length: PART_SIZE },
            PartRequest { number: 3, offset: 2 * PART_SIZE, length: 5 * MIB + 7 },
        ]
    );
    let (_, exact) = send(2 * PART_SIZE);
    assert_eq!(exact.len(), 2);
    assert_eq!(exact[1].length, PART_SIZE);
    let (_, tiny) = send(1);
    assert_eq!(tiny, vec![PartRequest { number: 1, offset: 0, length: 1 }]);
}

#[test]
fn part_plan_matches_the_size() {
    for size in [0, 1, PART_SIZE - 1, PART_SIZE, PART_SIZE + 1, 99 * MIB + 12345, 200 * MIB] {
        let (_, parts) = send(size);
        assert_eq!(parts.len() as u64, count_parts(size));
        assert_eq!(parts.len() as u64, size.div_ceil(PART_SIZE));
        assert_eq!(parts.iter().map(|part| part.length).sum::<u64>(), size);
        if let Some(last) = parts.last() {
            let rest = size % PART_SIZE;
            assert_eq!(last.length, if rest == 0 { PART_SIZE } else { rest });
        }
    }
}

#[test]
fn an_empty_file_has_no_parts() {
    let (session, parts) = send(0);
    assert!(parts.is_empty());
    assert!(session.completion().parts.is_empty());
}

#[test]
fn a_missing_tag_counts_as_empty() {
    let mut session = MultipartSession::new(5);
    session.initiated(Some("u".to_string())).unwrap();
    session.part_uploaded(None);
    assert_eq!(session.completion().parts[0].e_tag, "");
}

#[test]
fn a_session_without_identifier_is_given_up() {
    let mut session = MultipartSession::new(5);
    let error = session.initiated(None).unwrap_err();
    assert_eq!(error.cause, "No upload ID returned from S3");
    assert_eq!(session.state(), SessionState::Aborted);
}

#[test]
fn an_open_session_can_be_aborted() {
    let mut fresh = MultipartSession::new(5);
    assert_eq!(fresh.abort(), None);
    assert_eq!(fresh.state(), SessionState::Aborted);
    let mut open = MultipartSession::new(30 * MIB);
    open.initiated(Some("u-7".to_string())).unwrap();
    open.part_uploaded(Some("t".to_string()));
    assert_eq!(open.abort(), Some("u-7".to_string()));
    assert_eq!(open.state(), SessionState::Aborted);
    assert_eq!(open.uploaded_bytes(), PART_SIZE);
}

#[test]
fn failures_name_their_stage() {
    assert_eq!(
        transfer_error(TransferStage::Initiate, "denied").cause,
        "Failed to initiate multipart upload: denied"
    );
    assert_eq!(
        transfer_error(TransferStage::Part(12), "timeout").cause,
        "Failed to upload part 12: timeout"
    );
    assert_eq!(
        transfer_error(TransferStage::Complete, "").cause,
        "Failed to complete multipart upload: "
    );
}
