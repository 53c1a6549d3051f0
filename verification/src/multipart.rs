//! Sending a large file in parts: which transfer a size calls for, how the
//! file is cut into parts, and the life of one multipart session.

use vstd::prelude::*;
use crate::text::{decimal, push_decimal, push_str, string_of};

verus! {

/// Size from which a file is sent in parts (100 MiB). A file of exactly this
/// size is sent in parts.
pub const MULTIPART_THRESHOLD: u64 = 100 * 1024 * 1024;

/// Size of every part but the last (10 MiB).
pub const PART_SIZE: u64 = 10 * 1024 * 1024;

/// How a file is sent.
#[derive(Debug, Clone, Copy, PartialEq, Eq, Structural)]
pub enum TransferStrategy {
    /// The whole file is the body of one request.
    SingleShot,
    /// The file is sent part by part within a multipart session.
    Multipart,
}

/// The transfer that a file of `size` bytes calls for.
pub open spec fn strategy_for(size: u64) -> TransferStrategy {
    if size >= MULTIPART_THRESHOLD {
        TransferStrategy::Multipart
    } else {
        TransferStrategy::SingleShot
    }
}

/// Chooses the transfer for a file of `size` bytes.
pub fn select_strategy(size: u64) -> (strategy: TransferStrategy)
    ensures
        strategy == strategy_for(size),
        strategy == TransferStrategy::Multipart <==> size >= MULTIPART_THRESHOLD,
{
    if size >= MULTIPART_THRESHOLD {
        TransferStrategy::Multipart
    } else {
        TransferStrategy::SingleShot
    }
}

/// Number of parts of a file of `size` bytes: `size / PART_SIZE`, rounded up.
pub open spec fn part_count(size: nat) -> nat {
    (size + PART_SIZE - 1) as nat / (PART_SIZE as nat)
}

/// Where part `number` begins in the file. Parts are numbered from 1.
pub open spec fn part_offset(number: nat) -> nat {
    ((number - 1) * PART_SIZE) as nat
}

/// Length of part `number` of a file of `size` bytes: a full part, or what is
/// left of the file where that is less.
pub open spec fn part_length(size: nat, number: nat) -> nat {
    if part_offset(number) + PART_SIZE <= size {
        PART_SIZE as nat
    } else {
        (size - part_offset(number)) as nat
    }
}

/// Number of bytes sent once the first `done` parts of a file of `size` bytes
/// are through.
pub open spec fn bytes_after(size: nat, done: nat) -> nat {
    if done * PART_SIZE <= size {
        (done * PART_SIZE) as nat
    } else {
        size
    }
}

/// Number of parts of a file of `size` bytes.
pub fn count_parts(size: u64) -> (count: u64)
    ensures
        count == part_count(size as nat),
{
    assert(PART_SIZE == 10485760);
    let full: u64 = size / PART_SIZE;
    if size % PART_SIZE == 0 {
        full
    } else {
        full + 1
    }
}

/// One part that is to be sent.
#[derive(Debug, Clone, Copy, PartialEq, Eq, Structural)]
pub struct PartRequest {
    /// Number of the part, from 1.
    pub number: u64,
    /// Position of its first byte in the file.
    pub offset: u64,
    /// Its length in bytes.
    pub length: u64,
}

/// A part that the store has accepted, with the tag it returned for it.
#[derive(Debug, Clone)]
pub struct CompletedPart {
    pub part_number: u64,
    pub e_tag: String,
}

/// Where a multipart session stands.
#[derive(Debug, Clone, Copy, PartialEq, Eq, Structural)]
pub enum SessionState {
    /// Nothing has been asked of the store yet.
    Created,
    /// The store has opened the session; parts are being sent.
    Uploading,
    /// The store has assembled the object.
    Completed,
    /// The session was given up.
    Aborted,
}

/// The step of a multipart transfer at which a failure occurred.
#[derive(Debug, Clone, Copy, PartialEq, Eq, Structural)]
pub enum TransferStage {
    Initiate,
    Part(u64),
    Complete,
}

/// An unrecoverable failure of a transfer.
#[derive(Debug, Clone)]
pub struct TransferError {
    pub cause: String,
}

/// What the failure of `stage` is called.
pub open spec fn stage_text(stage: TransferStage) -> Seq<char> {
    match stage {
        TransferStage::Initiate => "Failed to initiate multipart upload"@,
        TransferStage::Part(number) => "Failed to upload part "@ + decimal(number as nat),
        TransferStage::Complete => "Failed to complete multipart upload"@,
    }
}

/// The cause reported when `stage` fails with `detail`.
pub open spec fn failure_text(stage: TransferStage, detail: Seq<char>) -> Seq<char> {
    stage_text(stage) + ": "@ + detail
}

/// Cause reported when the store opens a session without naming it.
pub open spec fn missing_id_text() -> Seq<char> {
    "No upload ID returned from S3"@
}

/// One multipart session: the parts accepted so far, in order, and the bytes
/// they cover.
pub struct MultipartSession {
    size: u64,
    state: SessionState,
    upload_id: Option<String>,
    parts: Vec<CompletedPart>,
    uploaded: u64,
}

/// What a [`MultipartSession`] holds.
pub struct SessionView {
    pub size: nat,
    pub state: SessionState,
    pub upload_id: Option<Seq<char>>,
    /// The tags of the accepted parts; the part with tag `tags[i]` has number `i + 1`.
    pub tags: Seq<Seq<char>>,
    pub uploaded: nat,
}

/// What is handed to the store to have the object assembled.
#[derive(Debug, Clone)]
pub struct CompletionRequest {
    pub upload_id: String,
    pub parts: Vec<CompletedPart>,
}

impl View for MultipartSession {
    type V = SessionView;

    closed spec fn view(&self) -> SessionView {
        SessionView {
            size: self.size as nat,
            state: self.state,
            upload_id: match self.upload_id {
                Some(id) => Some(id@),
                None => None,
            },
            tags: Seq::new(self.parts@.len(), |i: int| self.parts@[i].e_tag@),
            uploaded: self.uploaded as nat,
        }
    }
}

impl SessionView {
    /// The parts are numbered from 1 without a gap (by position), they cover
    /// the file from its start, and the state agrees with what was sent.
    pub open spec fn wf(self) -> bool {
        &&& self.uploaded == bytes_after(self.size, self.tags.len())
        &&& self.tags.len() <= part_count(self.size)
        &&& self.size <= u64::MAX
        &&& (self.state == SessionState::Created ==> self.tags.len() == 0 && self.upload_id is None)
        &&& (self.state == SessionState::Uploading ==> self.upload_id is Some)
        &&& (self.state == SessionState::Completed ==> self.upload_id is Some && self.uploaded
            == self.size)
    }

    /// Every part of the file has been accepted.
    pub open spec fn all_sent(self) -> bool {
        self.uploaded == self.size
    }
}

impl MultipartSession {
    /// Validity of a session: that of its view, and each stored part carries
    /// the number of its position.
    pub closed spec fn wf(&self) -> bool {
        &&& self@.wf()
        &&& forall|i: int|
            0 <= i < self.parts@.len() ==> (#[trigger] self.parts@[i]).part_number == i + 1
    }

    /// A session for a file of `size` bytes, of which nothing has been sent.
    pub fn new(size: u64) -> (session: Self)
        ensures
            session.wf(),
            session@ == (SessionView {
                size: size as nat,
                state: SessionState::Created,
                upload_id: None,
                tags: Seq::empty(),
                uploaded: 0,
            }),
    {
        let session = MultipartSession {
            size,
            state: SessionState::Created,
            upload_id: None,
            parts: Vec::new(),
            uploaded: 0,
        };
        assert(session@.tags =~= Seq::empty());
        session
    }

    /// Where the session stands.
    pub fn state(&self) -> (state: SessionState)
        ensures
            state == self@.state,
    {
        self.state
    }

    /// Size of the file in bytes.
    pub fn size(&self) -> (size: u64)
        ensures
            size == self@.size,
    {
        self.size
    }

    /// Bytes covered by the parts accepted so far: the progress of the transfer.
    pub fn uploaded_bytes(&self) -> (bytes: u64)
        ensures
            bytes == self@.uploaded,
    {
        self.uploaded
    }

    /// Number of parts accepted so far.
    pub fn parts_done(&self) -> (count: usize)
        ensures
            count == self@.tags.len(),
    {
        self.parts.len()
    }

    /// The store has answered the request to open the session. With an
    /// identifier the session is open; without one it is given up.
    pub fn initiated(&mut self, upload_id: Option<String>) -> (result: Result<(), TransferError>)
        requires
            old(self).wf(),
            old(self)@.state == SessionState::Created,
        ensures
            final(self).wf(),
            match upload_id {
                Some(id) => result is Ok && final(self)@ == (SessionView {
                    state: SessionState::Uploading,
                    upload_id: Some(id@),
                    ..old(self)@
                }),
                None => result matches Err(e) && e.cause@ == missing_id_text() && final(self)@ == (
                SessionView { state: SessionState::Aborted, ..old(self)@ }),
            },
    {
        match upload_id {
            Some(id) => {
                self.upload_id = Some(id);
                self.state = SessionState::Uploading;
                assert(final(self)@.tags =~= old(self)@.tags);
                Ok(())
            },
            None => {
                self.state = SessionState::Aborted;
                assert(final(self)@.tags =~= old(self)@.tags);
                let mut cause: Vec<char> = Vec::new();
                push_str(&mut cause, "No upload ID returned from S3");
                Err(TransferError { cause: string_of(&cause) })
            },
        }
    }

    /// The part to send next, or `None` once the whole file is covered.
    pub fn next_part(&self) -> (next: Option<PartRequest>)
        requires
            self.wf(),
            self@.state == SessionState::Uploading,
        ensures
            self@.all_sent() ==> next is None,
            !self@.all_sent() ==> next == Some(
                PartRequest {
                    number: (self@.tags.len() + 1) as u64,
                    offset: self@.uploaded as u64,
                    length: part_length(self@.size, self@.tags.len() + 1) as u64,
                },
            ),
            next matches Some(part) ==> 1 <= part.length <= PART_SIZE && part.offset + part.length
                <= self@.size && part.offset == part_offset(part.number as nat),
    {
        assert(PART_SIZE == 10485760);
        if self.uploaded >= self.size {
            return None;
        }
        let left: u64 = self.size - self.uploaded;
        let length: u64 = if left < PART_SIZE {
            left
        } else {
            PART_SIZE
        };
        Some(PartRequest { number: self.parts.len() as u64 + 1, offset: self.uploaded, length })
    }

    /// The store has accepted the part that [`Self::next_part`] named, and
    /// returned `e_tag` for it (no tag counts as the empty tag).
    pub fn part_uploaded(&mut self, e_tag: Option<String>)
        requires
            old(self).wf(),
            old(self)@.state == SessionState::Uploading,
            !old(self)@.all_sent(),
        ensures
            final(self).wf(),
            final(self)@ == (SessionView {
                tags: old(self)@.tags.push(
                    match e_tag {
                        Some(tag) => tag@,
                        None => Seq::empty(),
                    },
                ),
                uploaded: old(self)@.uploaded + part_length(
                    old(self)@.size,
                    old(self)@.tags.len() + 1,
                ),
                ..old(self)@
            }),
            old(self)@.uploaded < final(self)@.uploaded <= final(self)@.size,
    {
        assert(PART_SIZE == 10485760);
        let left: u64 = self.size - self.uploaded;
        let length: u64 = if left < PART_SIZE {
            left
        } else {
            PART_SIZE
        };
        let tag = match e_tag {
            Some(tag) => tag,
            None => String::new(),
        };
        let part = CompletedPart { part_number: self.parts.len() as u64 + 1, e_tag: tag };
        self.parts.push(part);
        self.uploaded = self.uploaded + length;
        assert(final(self)@.tags =~= old(self)@.tags.push(tag@));
    }

    /// What is handed to the store once every part is through: the session's
    /// identifier and the accepted parts in ascending order of their numbers.
    pub fn completion(&self) -> (request: CompletionRequest)
        requires
            self.wf(),
            self@.state == SessionState::Uploading,
            self@.all_sent(),
        ensures
            Some(request.upload_id@) == self@.upload_id,
            request.parts@.len() == self@.tags.len(),
            request.parts@.len() == part_count(self@.size),
            forall|i: int|
                0 <= i < request.parts@.len() ==> (#[trigger] request.parts@[i]).part_number == i
                    + 1 && request.parts@[i].e_tag@ == self@.tags[i],
    {
        assert(PART_SIZE == 10485760);
        let mut parts: Vec<CompletedPart> = Vec::new();
        let mut i: usize = 0;
        while i < self.parts.len()
            invariant
                i <= self.parts.len(),
                self.wf(),
                parts@.len() == i,
                forall|k: int|
                    0 <= k < i ==> (#[trigger] parts@[k]).part_number == k + 1 && parts@[k].e_tag@
                        == self.parts@[k].e_tag@,
            decreases self.parts.len() - i,
        {
            let part = &self.parts[i];
            parts.push(CompletedPart { part_number: part.part_number, e_tag: part.e_tag.clone() });
            i += 1;
        }
        let upload_id = match &self.upload_id {
            Some(id) => id.clone(),
            None => String::new(),
        };
        CompletionRequest { upload_id, parts }
    }

    /// The store has assembled the object.
    pub fn completed(&mut self)
        requires
            old(self).wf(),
            old(self)@.state == SessionState::Uploading,
            old(self)@.all_sent(),
        ensures
            final(self).wf(),
            final(self)@ == (SessionView { state: SessionState::Completed, ..old(self)@ }),
    {
        self.state = SessionState::Completed;
        assert(final(self)@.tags =~= old(self)@.tags);
    }

    /// Gives the session up. Returns the identifier under which the store
    /// still holds its parts, if it opened one: that session is the one to
    /// abort at the store.
    pub fn abort(&mut self) -> (upload_id: Option<String>)
        requires
            old(self).wf(),
            old(self)@.state != SessionState::Completed,
        ensures
            final(self).wf(),
            final(self)@ == (SessionView { state: SessionState::Aborted, ..old(self)@ }),
            match upload_id {
                Some(id) => old(self)@.upload_id == Some(id@),
                None => old(self)@.upload_id is None,
            },
    {
        self.state = SessionState::Aborted;
        assert(final(self)@.tags =~= old(self)@.tags);
        match &self.upload_id {
            Some(id) => Some(id.clone()),
            None => None,
        }
    }
}

/// The error for a failure of `stage` with the store's `detail`.
pub fn transfer_error(stage: TransferStage, detail: &str) -> (error: TransferError)
    ensures
        error.cause@ == failure_text(stage, detail@),
{
    let mut cause: Vec<char> = Vec::new();
    match stage {
        TransferStage::Initiate => {
            push_str(&mut cause, "Failed to initiate multipart upload");
        },
        TransferStage::Part(number) => {
            push_str(&mut cause, "Failed to upload part ");
            push_decimal(&mut cause, number);
        },
        TransferStage::Complete => {
            push_str(&mut cause, "Failed to complete multipart upload");
        },
    }
    push_str(&mut cause, ": ");
    push_str(&mut cause, detail);
    TransferError { cause: string_of(&cause) }
}

/// The parts of a file of `size` bytes are `size / PART_SIZE` of them, rounded
/// up; every part but the last is full; the last holds the remainder
/// `size % PART_SIZE`, or is full where that is zero; and each part begins
/// where the one before it ended, the last ending at `size`.
pub proof fn lemma_part_plan(size: nat)
    ensures
        part_count(size) == if size % (PART_SIZE as nat) == 0 {
            size / (PART_SIZE as nat)
        } else {
            size / (PART_SIZE as nat) + 1
        },
        forall|k: nat| 1 <= k < part_count(size) ==> #[trigger] part_length(size, k) == PART_SIZE,
        part_count(size) > 0 ==> part_length(size, part_count(size)) == if size % (
        PART_SIZE as nat) == 0 {
            PART_SIZE as nat
        } else {
            size % (PART_SIZE as nat)
        },
        forall|k: nat|
            1 <= k <= part_count(size) ==> part_offset(k) + #[trigger] part_length(size, k)
                == bytes_after(size, k) && bytes_after(size, (k - 1) as nat) == part_offset(k),
        bytes_after(size, part_count(size)) == size,
{
    assert(PART_SIZE == 10485760);
}

/// A session whose parts cover the file holds exactly `part_count` parts.
pub proof fn lemma_all_sent_counts(session: SessionView)
    requires
        session.wf(),
        session.all_sent(),
    ensures
        session.tags.len() == part_count(session.size),
{
    assert(PART_SIZE == 10485760);
}

} // verus!
