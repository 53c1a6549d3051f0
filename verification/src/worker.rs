//! One file's way through a worker: compare, transfer, sign, and the outcome
//! that is reported for it. The worker does the work; what it has to do next
//! is decided here.

use vstd::prelude::*;
use crate::compare::{FileComparison, HeadOutcome};
use crate::multipart::{strategy_for, select_strategy, TransferStrategy};
use crate::report::{format_size, size_text, ProcessResult, ResultView};
use crate::text::{push_str, string_of};
use crate::upload::UploadResult;

verus! {

/// Where the work on one file stands.
#[derive(Debug, Clone, Copy, PartialEq, Eq, Structural)]
pub enum JobStage {
    /// The file is to be compared with the stored object.
    Comparing,
    /// The store is to be asked whether it holds the object.
    Probing,
    /// The file is to be sent.
    Transferring,
    /// A link is to be made; `sent` tells whether the file was sent before.
    Signing { sent: bool },
    /// A link is to be made for an object that was only looked up.
    Linking,
    /// The outcome has been reported.
    Finished,
}

/// What the worker does next for the file.
#[derive(Debug, Clone)]
pub enum JobAction {
    /// Send the file in the given way.
    Transfer(TransferStrategy),
    /// Have a link made for the stored object.
    Sign,
    /// Report the outcome; the work on the file is done.
    Emit(ProcessResult),
}

/// What a [`JobAction`] holds.
pub enum ActionView {
    Transfer(TransferStrategy),
    Sign,
    Emit(ResultView),
}

impl View for JobAction {
    type V = ActionView;

    open spec fn view(&self) -> ActionView {
        match *self {
            JobAction::Transfer(strategy) => ActionView::Transfer(strategy),
            JobAction::Sign => ActionView::Sign,
            JobAction::Emit(result) => ActionView::Emit(result@),
        }
    }
}

/// The work on one file.
pub struct Job {
    filename: String,
    size: u64,
    stage: JobStage,
}

/// What a [`Job`] holds.
pub struct JobView {
    pub filename: Seq<char>,
    pub size: u64,
    pub stage: JobStage,
}

impl View for Job {
    type V = JobView;

    closed spec fn view(&self) -> JobView {
        JobView { filename: self.filename@, size: self.size, stage: self.stage }
    }
}

/// What follows the comparison of the file with the stored object: an
/// identical object is only linked to, any other is replaced by the file, sent
/// in the way that its size calls for, and a failed comparison is the file's outcome.
pub open spec fn after_compare(job: JobView, outcome: Result<FileComparison, String>) -> (
    JobStage,
    ActionView,
) {
    match outcome {
        Ok(FileComparison::Identical) => (JobStage::Signing { sent: false }, ActionView::Sign),
        Ok(_) => (JobStage::Transferring, ActionView::Transfer(strategy_for(job.size))),
        Err(reason) => (
            JobStage::Finished,
            ActionView::Emit(ResultView::Failed { filename: job.filename, error: reason@ }),
        ),
    }
}

/// What follows the transfer: a link is made whether the file was sent or
/// left out, and a failed transfer is the file's outcome.
pub open spec fn after_transfer(job: JobView, outcome: Result<UploadResult, String>) -> (
    JobStage,
    ActionView,
) {
    match outcome {
        Ok(UploadResult::Uploaded) => (JobStage::Signing { sent: true }, ActionView::Sign),
        Ok(UploadResult::Skipped) => (JobStage::Signing { sent: false }, ActionView::Sign),
        Err(reason) => (
            JobStage::Finished,
            ActionView::Emit(ResultView::Failed { filename: job.filename, error: reason@ }),
        ),
    }
}

/// What follows the answer to the question whether the store holds the object.
pub open spec fn after_probe(job: JobView, head: HeadOutcome) -> (JobStage, ActionView) {
    match head {
        HeadOutcome::Found(_) => (JobStage::Linking, ActionView::Sign),
        HeadOutcome::Absent => (
            JobStage::Finished,
            ActionView::Emit(ResultView::NotFound { filename: job.filename }),
        ),
        HeadOutcome::Failed(reason) => (
            JobStage::Finished,
            ActionView::Emit(ResultView::Failed { filename: job.filename, error: reason@ }),
        ),
    }
}

/// The outcome of a file for which the signer was asked for a link.
pub open spec fn after_sign(job: JobView, outcome: Result<String, String>) -> ResultView {
    match outcome {
        Err(reason) => ResultView::Failed { filename: job.filename, error: reason@ },
        Ok(url) => match job.stage {
            JobStage::Signing { sent: true } => ResultView::Uploaded {
                filename: job.filename,
                size: size_text(job.size),
                url: url@,
            },
            JobStage::Signing { sent: false } => ResultView::Skipped {
                filename: job.filename,
                size: size_text(job.size),
                url: url@,
            },
            _ => ResultView::UrlGenerated { filename: job.filename, url: url@ },
        },
    }
}

impl Job {
    /// The work on a file of `size` bytes that is to be uploaded. It begins
    /// with the comparison.
    pub fn upload(filename: String, size: u64) -> (job: Self)
        ensures
            job@ == (JobView { filename: filename@, size, stage: JobStage::Comparing }),
    {
        Job { filename, size, stage: JobStage::Comparing }
    }

    /// The work on a file for whose object only a link is wanted. It begins
    /// with the question whether the store holds the object.
    pub fn link(filename: String) -> (job: Self)
        ensures
            job@ == (JobView { filename: filename@, size: 0, stage: JobStage::Probing }),
    {
        Job { filename, size: 0, stage: JobStage::Probing }
    }

    /// Where the work on the file stands.
    pub fn stage(&self) -> (stage: JobStage)
        ensures
            stage == self@.stage,
    {
        self.stage
    }

    /// Size of the file in bytes; zero where only a link is wanted.
    pub fn size(&self) -> (size: u64)
        ensures
            size == self@.size,
    {
        self.size
    }

    fn failed(&self, reason: String) -> (result: ProcessResult)
        ensures
            result@ == (ResultView::Failed { filename: self@.filename, error: reason@ }),
    {
        ProcessResult::Failed { filename: self.filename.clone(), error: reason }
    }

    /// Takes up the outcome of the comparison.
    pub fn compared(&mut self, outcome: Result<FileComparison, String>) -> (action: JobAction)
        requires
            old(self)@.stage == JobStage::Comparing,
        ensures
            final(self)@ == (JobView { stage: after_compare(old(self)@, outcome).0, ..old(self)@ }),
            action@ == after_compare(old(self)@, outcome).1,
    {
        match outcome {
            Ok(FileComparison::Identical) => {
                self.stage = JobStage::Signing { sent: false };
                JobAction::Sign
            },
            Ok(_) => {
                self.stage = JobStage::Transferring;
                JobAction::Transfer(select_strategy(self.size))
            },
            Err(reason) => {
                self.stage = JobStage::Finished;
                JobAction::Emit(self.failed(reason))
            },
        }
    }

    /// Takes up the outcome of the transfer.
    pub fn transferred(&mut self, outcome: Result<UploadResult, String>) -> (action: JobAction)
        requires
            old(self)@.stage == JobStage::Transferring,
        ensures
            final(self)@ == (JobView { stage: after_transfer(old(self)@, outcome).0, ..old(self)@ }),
            action@ == after_transfer(old(self)@, outcome).1,
    {
        match outcome {
            Ok(UploadResult::Uploaded) => {
                self.stage = JobStage::Signing { sent: true };
                JobAction::Sign
            },
            Ok(UploadResult::Skipped) => {
                self.stage = JobStage::Signing { sent: false };
                JobAction::Sign
            },
            Err(reason) => {
                self.stage = JobStage::Finished;
                JobAction::Emit(self.failed(reason))
            },
        }
    }

    /// Takes up the answer to the question whether the store holds the object.
    pub fn probed(&mut self, head: HeadOutcome) -> (action: JobAction)
        requires
            old(self)@.stage == JobStage::Probing,
        ensures
            final(self)@ == (JobView { stage: after_probe(old(self)@, head).0, ..old(self)@ }),
            action@ == after_probe(old(self)@, head).1,
    {
        match head {
            HeadOutcome::Found(_) => {
                self.stage = JobStage::Linking;
                JobAction::Sign
            },
            HeadOutcome::Absent => {
                self.stage = JobStage::Finished;
                JobAction::Emit(ProcessResult::NotFound { filename: self.filename.clone() })
            },
            HeadOutcome::Failed(reason) => {
                self.stage = JobStage::Finished;
                JobAction::Emit(self.failed(reason))
            },
        }
    }

    /// Takes up the signer's answer. This ends the work on the file: the
    /// outcome returned is the one to report.
    pub fn signed(&mut self, outcome: Result<String, String>) -> (result: ProcessResult)
        requires
            old(self)@.stage is Signing || old(self)@.stage == JobStage::Linking,
        ensures
            final(self)@ == (JobView { stage: JobStage::Finished, ..old(self)@ }),
            result@ == after_sign(old(self)@, outcome),
    {
        let stage = self.stage;
        self.stage = JobStage::Finished;
        match outcome {
            Err(reason) => self.failed(reason),
            Ok(url) => match stage {
                JobStage::Signing { sent: true } => ProcessResult::Uploaded {
                    filename: self.filename.clone(),
                    size: format_size(self.size),
                    url,
                },
                JobStage::Signing { sent: false } => ProcessResult::Skipped {
                    filename: self.filename.clone(),
                    size: format_size(self.size),
                    url,
                },
                _ => ProcessResult::UrlGenerated { filename: self.filename.clone(), url },
            },
        }
    }
}

/// What a run that only tells in advance would do with a file.
#[derive(Debug, Clone, Copy, PartialEq, Eq, Structural)]
pub enum DryRunAction {
    /// The store holds no such object: the file would be sent.
    WouldUpload,
    /// The stored object differs: it would be replaced.
    WouldUpdate,
    /// The stored object is identical: nothing would be sent.
    WouldSkip,
}

/// What would be done with a file that compares as `comparison`.
pub open spec fn dry_run_for(comparison: FileComparison) -> DryRunAction {
    match comparison {
        FileComparison::NotFound => DryRunAction::WouldUpload,
        FileComparison::Different => DryRunAction::WouldUpdate,
        FileComparison::Identical => DryRunAction::WouldSkip,
    }
}

/// The action in words.
pub open spec fn dry_run_label(action: DryRunAction) -> Seq<char> {
    match action {
        DryRunAction::WouldUpload => "WOULD UPLOAD"@,
        DryRunAction::WouldUpdate => "WOULD UPDATE"@,
        DryRunAction::WouldSkip => "WOULD SKIP"@,
    }
}

/// What is told of the file behind the action: the file with its size, and,
/// unless it is skipped, where it would go.
pub open spec fn dry_run_detail(
    action: DryRunAction,
    relative_path: Seq<char>,
    bucket: Seq<char>,
    key: Seq<char>,
    size: Seq<char>,
) -> Seq<char> {
    match action {
        DryRunAction::WouldSkip => relative_path + " ("@ + size + ")"@,
        _ => relative_path + " \u{2192} s3://"@ + bucket + "/"@ + key + " ("@ + size + ")"@,
    }
}

/// What would be done with a file that compares as `comparison`.
pub fn dry_run_action(comparison: FileComparison) -> (action: DryRunAction)
    ensures
        action == dry_run_for(comparison),
{
    match comparison {
        FileComparison::NotFound => DryRunAction::WouldUpload,
        FileComparison::Different => DryRunAction::WouldUpdate,
        FileComparison::Identical => DryRunAction::WouldSkip,
    }
}

impl DryRunAction {
    /// The action in words.
    pub fn label(&self) -> (text: &'static str)
        ensures
            text@ == dry_run_label(*self),
    {
        match self {
            DryRunAction::WouldUpload => "WOULD UPLOAD",
            DryRunAction::WouldUpdate => "WOULD UPDATE",
            DryRunAction::WouldSkip => "WOULD SKIP",
        }
    }

    /// What is told of the file behind the action.
    pub fn detail(&self, relative_path: &str, bucket: &str, key: &str, size: &str) -> (text: String)
        ensures
            text@ == dry_run_detail(*self, relative_path@, bucket@, key@, size@),
    {
        let mut out: Vec<char> = Vec::new();
        push_str(&mut out, relative_path);
        match self {
            DryRunAction::WouldSkip => {},
            _ => {
                push_str(&mut out, " \u{2192} s3://");
                push_str(&mut out, bucket);
                push_str(&mut out, "/");
                push_str(&mut out, key);
            },
        }
        push_str(&mut out, " (");
        push_str(&mut out, size);
        push_str(&mut out, ")");
        assert(Seq::<char>::empty() + dry_run_detail(*self, relative_path@, bucket@, key@, size@)
            =~= dry_run_detail(*self, relative_path@, bucket@, key@, size@));
        string_of(&out)
    }
}

/// What a worker is doing.
#[derive(Debug, Clone, Copy, PartialEq, Eq, Structural)]
pub enum WorkerState {
    /// Waiting for a file.
    Idle,
    /// At work on a file.
    Running,
    /// The queue is closed and empty: the worker has ended.
    Done,
}

/// One worker of the pool, with the number of files that it has taken from
/// the queue and the number of outcomes that it has reported.
#[derive(Debug, Clone, Copy, PartialEq, Eq, Structural)]
pub struct Worker {
    pub state: WorkerState,
    pub claimed: u64,
    pub emitted: u64,
}

impl Worker {
    /// Every file taken has its outcome reported, but for the one at hand.
    pub open spec fn wf(self) -> bool {
        self.claimed == self.emitted + if self.state == WorkerState::Running {
            1nat
        } else {
            0nat
        }
    }

    /// A worker that waits for its first file.
    pub fn new() -> (worker: Self)
        ensures
            worker.wf(),
            worker == (Worker { state: WorkerState::Idle, claimed: 0, emitted: 0 }),
    {
        Worker { state: WorkerState::Idle, claimed: 0, emitted: 0 }
    }

    /// The queue has answered: with a file the worker sets to work, and
    /// without one (the queue is closed and empty) it ends.
    pub fn claim(&mut self, got_file: bool)
        requires
            old(self).wf(),
            old(self).state == WorkerState::Idle,
            old(self).claimed < u64::MAX,
        ensures
            final(self).wf(),
            got_file ==> *final(self) == (Worker {
                state: WorkerState::Running,
                claimed: (old(self).claimed + 1) as u64,
                ..*old(self)
            }),
            !got_file ==> *final(self) == (Worker { state: WorkerState::Done, ..*old(self) }),
    {
        if got_file {
            self.state = WorkerState::Running;
            self.claimed = self.claimed + 1;
        } else {
            self.state = WorkerState::Done;
        }
    }

    /// The outcome of the file at hand has been reported: the worker waits
    /// for the next file.
    pub fn emitted(&mut self)
        requires
            old(self).wf(),
            old(self).state == WorkerState::Running,
        ensures
            final(self).wf(),
            *final(self) == (Worker {
                state: WorkerState::Idle,
                emitted: (old(self).emitted + 1) as u64,
                ..*old(self)
            }),
    {
        self.state = WorkerState::Idle;
        self.emitted = self.emitted + 1;
    }
}

/// Number of files that the workers have taken from the queue.
pub open spec fn total_claimed(workers: Seq<Worker>) -> nat
    decreases workers.len(),
{
    if workers.len() == 0 {
        0
    } else {
        total_claimed(workers.drop_last()) + workers.last().claimed as nat
    }
}

/// Number of outcomes that the workers have reported.
pub open spec fn total_emitted(workers: Seq<Worker>) -> nat
    decreases workers.len(),
{
    if workers.len() == 0 {
        0
    } else {
        total_emitted(workers.drop_last()) + workers.last().emitted as nat
    }
}

/// The run is over: every worker has found the queue closed and empty and
/// has ended, and the collector has seen the last outcome.
pub open spec fn run_is_complete(workers: Seq<Worker>, results_closed: bool) -> bool {
    results_closed && forall|i: int|
        0 <= i < workers.len() ==> (#[trigger] workers[i]).state == WorkerState::Done
}

/// Whether the run is over.
pub fn run_complete(workers: &Vec<Worker>, results_closed: bool) -> (complete: bool)
    ensures
        complete == run_is_complete(workers@, results_closed),
{
    if !results_closed {
        return false;
    }
    let mut i: usize = 0;
    while i < workers.len()
        invariant
            i <= workers.len(),
            forall|k: int| 0 <= k < i ==> (#[trigger] workers@[k]).state == WorkerState::Done,
        decreases workers.len() - i,
    {
        if workers[i].state != WorkerState::Done {
            return false;
        }
        i += 1;
    }
    true
}

/// When the run is over, the workers have reported as many outcomes as they
/// took files from the queue: no file was lost on the way.
pub proof fn lemma_complete_run_lost_nothing(workers: Seq<Worker>, results_closed: bool)
    requires
        forall|i: int| 0 <= i < workers.len() ==> (#[trigger] workers[i]).wf(),
        run_is_complete(workers, results_closed),
    ensures
        total_emitted(workers) == total_claimed(workers),
    decreases workers.len(),
{
    if workers.len() > 0 {
        let rest = workers.drop_last();
        assert forall|i: int| 0 <= i < rest.len() implies (#[trigger] rest[i]).wf()
            && rest[i].state == WorkerState::Done by {
            assert(rest[i] == workers[i]);
        }
        lemma_complete_run_lost_nothing(rest, results_closed);
        assert(workers[workers.len() - 1].state == WorkerState::Done);
    }
}

/// A worker that has ended has reported an outcome for every file that it took.
pub proof fn lemma_done_worker_lost_nothing(worker: Worker)
    requires
        worker.wf(),
        worker.state == WorkerState::Done,
    ensures
        worker.emitted == worker.claimed,
{
}

} // verus!
