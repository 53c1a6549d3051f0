//! Trying a transfer again: which failures are worth another attempt, how
//! long to wait before it, and when to give up.

use vstd::prelude::*;
use crate::multipart::TransferError;
use crate::text::{
    chars_of, contains, contains_text, decimal, lowercase_of, push_decimal, push_str, string_of,
};

verus! {

/// Number of attempts that may follow the first one.
pub const MAX_RETRIES: u32 = 3;

/// Seconds to wait before the first retry; each later wait is twice the one before.
pub const INITIAL_RETRY_DELAY_SECS: u64 = 1;

/// How a transfer ended.
#[derive(Debug, Clone, Copy, PartialEq, Eq, Structural)]
pub enum UploadResult {
    Uploaded,
    Skipped,
}

/// A lowercased failure message names a condition that may pass: a timeout, a
/// lost connection, throttling, or a server-side error.
pub open spec fn has_transient_marker(lowered: Seq<char>) -> bool {
    ||| contains(lowered, "timeout"@)
    ||| contains(lowered, "connection"@)
    ||| contains(lowered, "throttl"@)
    ||| contains(lowered, "503"@)
    ||| contains(lowered, "500"@)
    ||| contains(lowered, "502"@)
    ||| contains(lowered, "504"@)
    ||| contains(lowered, "slowdown"@)
    ||| contains(lowered, "temporary"@)
    ||| contains(lowered, "broken pipe"@)
    ||| contains(lowered, "connection reset"@)
}

/// Whether a failure message, already in lowercase, names a transient condition.
pub fn is_transient_text(lowered: &str) -> (transient: bool)
    ensures
        transient == has_transient_marker(lowered@),
{
    let text = chars_of(lowered);
    contains_text(&text, "timeout") || contains_text(&text, "connection") || contains_text(
        &text,
        "throttl",
    ) || contains_text(&text, "503") || contains_text(&text, "500") || contains_text(&text, "502")
        || contains_text(&text, "504") || contains_text(&text, "slowdown") || contains_text(
        &text,
        "temporary",
    ) || contains_text(&text, "broken pipe") || contains_text(&text, "connection reset")
}

/// Whether a failure with this message is worth another attempt. Letter case
/// does not count.
pub fn is_retryable(message: &str) -> (retryable: bool)
    ensures
        retryable == has_transient_marker(lowercase_of(message@)),
{
    let lowered = message.to_lowercase();
    is_transient_text(lowered.as_str())
}

/// Seconds to wait before the next retry when `retries` retries have been made.
pub open spec fn backoff_secs(retries: nat) -> nat
    decreases retries,
{
    if retries == 0 {
        INITIAL_RETRY_DELAY_SECS as nat
    } else {
        2 * backoff_secs((retries - 1) as nat)
    }
}

/// A failed attempt is followed by another one: the failure is transient and
/// fewer than [`MAX_RETRIES`] retries have been made.
pub open spec fn may_retry(retries: nat, transient: bool) -> bool {
    transient && retries < MAX_RETRIES
}

/// Why a transfer was given up.
#[derive(Debug, Clone)]
pub enum RetryError {
    /// The failure is not one that passes. `retries` retries preceded it.
    Fatal { retries: u32, message: String },
    /// The failure is transient, and all retries have been used.
    Exhausted { retries: u32, message: String },
}

/// The error as a text. The retries that preceded it are told, if there
/// were any.
pub open spec fn retry_error_text(retries: u32, message: Seq<char>) -> Seq<char> {
    if retries > 0 {
        "Upload failed after "@ + decimal(retries as nat) + " retries: "@ + message
    } else {
        message
    }
}

impl RetryError {
    /// Number of retries that preceded the failure.
    pub open spec fn retries_made(&self) -> u32 {
        match *self {
            RetryError::Fatal { retries, .. } => retries,
            RetryError::Exhausted { retries, .. } => retries,
        }
    }

    /// The message of the last failure.
    pub open spec fn last_message(&self) -> Seq<char> {
        match *self {
            RetryError::Fatal { message, .. } => message@,
            RetryError::Exhausted { message, .. } => message@,
        }
    }

    /// The error as a text.
    pub fn describe(&self) -> (text: String)
        ensures
            text@ == retry_error_text(self.retries_made(), self.last_message()),
    {
        let (retries, message) = match self {
            RetryError::Fatal { retries, message } => (*retries, message),
            RetryError::Exhausted { retries, message } => (*retries, message),
        };
        let mut out: Vec<char> = Vec::new();
        if retries > 0 {
            push_str(&mut out, "Upload failed after ");
            push_decimal(&mut out, retries as u64);
            push_str(&mut out, " retries: ");
        }
        push_str(&mut out, message.as_str());
        assert(Seq::<char>::empty() + retry_error_text(retries, message@) =~= retry_error_text(
            retries,
            message@,
        ));
        string_of(&out)
    }
}

/// The length that a request announces for a body of `size` bytes, where the
/// size can be announced at all.
pub fn content_length(size: u64) -> (length: Option<i64>)
    ensures
        size <= i64::MAX ==> length == Some(size as i64),
        size > i64::MAX ==> length is None,
{
    if size <= i64::MAX as u64 {
        Some(size as i64)
    } else {
        None
    }
}

/// The step of a transfer in one request at which a failure occurred.
#[derive(Debug, Clone, Copy, PartialEq, Eq, Structural)]
pub enum PutStage {
    /// The file's size could not be read.
    Access,
    /// The file could not be opened as the body of the request.
    Stream,
    /// The store did not accept the request.
    Upload,
}

/// The cause reported when `stage` fails with `detail`; `subject` is the
/// file's path, or for the request itself `s3://`, the bucket, a slash and the key.
pub open spec fn put_failure_text(stage: PutStage, subject: Seq<char>, detail: Seq<char>) -> Seq<
    char,
> {
    match stage {
        PutStage::Access => "Failed to access file: "@ + subject + ": "@ + detail,
        PutStage::Stream => "Failed to create byte stream from "@ + subject + ": "@ + detail,
        PutStage::Upload => "Failed to upload to "@ + subject + ": "@ + detail,
    }
}

/// The error for a failure of `stage` with the `detail` given.
pub fn put_error(stage: PutStage, subject: &str, detail: &str) -> (error: TransferError)
    ensures
        error.cause@ == put_failure_text(stage, subject@, detail@),
{
    let mut cause: Vec<char> = Vec::new();
    match stage {
        PutStage::Access => push_str(&mut cause, "Failed to access file: "),
        PutStage::Stream => push_str(&mut cause, "Failed to create byte stream from "),
        PutStage::Upload => push_str(&mut cause, "Failed to upload to "),
    }
    push_str(&mut cause, subject);
    push_str(&mut cause, ": ");
    push_str(&mut cause, detail);
    assert(Seq::<char>::empty() + put_failure_text(stage, subject@, detail@) =~= put_failure_text(
        stage,
        subject@,
        detail@,
    ));
    TransferError { cause: string_of(&cause) }
}

/// What follows a failed attempt.
#[derive(Debug, Clone)]
pub enum RetryDecision {
    /// Wait `delay_secs` seconds, then make attempt number `attempt` after the
    /// first. It sends the file from byte `resume_from`.
    RetryAfter { attempt: u32, delay_secs: u64, resume_from: u64 },
    /// Make no further attempt.
    GiveUp(RetryError),
}

/// The retries made so far for one transfer.
pub struct RetryState {
    retries: u32,
    delay_secs: u64,
}

impl View for RetryState {
    type V = nat;

    /// Number of retries made.
    closed spec fn view(&self) -> nat {
        self.retries as nat
    }
}

impl RetryState {
    /// Validity: no more retries than allowed were made, and the next wait
    /// is the one that follows from their number.
    pub closed spec fn wf(&self) -> bool {
        self.retries <= MAX_RETRIES && self.delay_secs == backoff_secs(self.retries as nat)
    }

    /// The state before the first attempt.
    pub fn new() -> (state: Self)
        ensures
            state.wf(),
            state@ == 0,
    {
        RetryState { retries: 0, delay_secs: INITIAL_RETRY_DELAY_SECS }
    }

    /// Number of retries made.
    pub fn retries(&self) -> (retries: u32)
        ensures
            retries == self@,
    {
        self.retries
    }

    /// Decides what follows an attempt that failed with `message`, given
    /// whether the failure is transient.
    ///
    /// A retry is counted, and starts the transfer from its first byte: what
    /// the failed attempt had sent is discarded. Giving up leaves the state as it was.
    pub fn decide(&mut self, transient: bool, message: String) -> (decision: RetryDecision)
        requires
            old(self).wf(),
        ensures
            final(self).wf(),
            may_retry(old(self)@, transient) ==> final(self)@ == old(self)@ + 1 && decision == (
            RetryDecision::RetryAfter {
                attempt: (old(self)@ + 1) as u32,
                delay_secs: backoff_secs(old(self)@) as u64,
                resume_from: 0,
            }),
            !may_retry(old(self)@, transient) ==> final(self)@ == old(self)@ && (
            decision matches RetryDecision::GiveUp(error) && if transient {
                error == (RetryError::Exhausted { retries: old(self)@ as u32, message })
            } else {
                error == (RetryError::Fatal { retries: old(self)@ as u32, message })
            }),
    {
        proof {
            lemma_backoff_values();
        }
        if transient && self.retries < MAX_RETRIES {
            let delay_secs: u64 = self.delay_secs;
            self.retries = self.retries + 1;
            self.delay_secs = delay_secs * 2;
            RetryDecision::RetryAfter { attempt: self.retries, delay_secs, resume_from: 0 }
        } else if transient {
            RetryDecision::GiveUp(RetryError::Exhausted { retries: self.retries, message })
        } else {
            RetryDecision::GiveUp(RetryError::Fatal { retries: self.retries, message })
        }
    }

    /// Decides what follows an attempt that failed with `message`: the
    /// message is classified by [`is_retryable`], then [`Self::decide`] decides.
    pub fn on_failure(&mut self, message: String) -> (decision: RetryDecision)
        requires
            old(self).wf(),
        ensures
            final(self).wf(),
            may_retry(old(self)@, has_transient_marker(lowercase_of(message@))) ==> final(self)@
                == old(self)@ + 1 && decision == (RetryDecision::RetryAfter {
                attempt: (old(self)@ + 1) as u32,
                delay_secs: backoff_secs(old(self)@) as u64,
                resume_from: 0,
            }),
            !may_retry(old(self)@, has_transient_marker(lowercase_of(message@))) ==> final(self)@
                == old(self)@ && (decision matches RetryDecision::GiveUp(error) && if has_transient_marker(
                lowercase_of(message@),
            ) {
                error == (RetryError::Exhausted { retries: old(self)@ as u32, message })
            } else {
                error == (RetryError::Fatal { retries: old(self)@ as u32, message })
            }),
    {
        let transient = is_retryable(message.as_str());
        self.decide(transient, message)
    }
}

/// The waits before the retries are 1, 2, 4 and 8 seconds.
pub proof fn lemma_backoff_values()
    ensures
        backoff_secs(0) == 1,
        backoff_secs(1) == 2,
        backoff_secs(2) == 4,
        backoff_secs(3) == 8,
{
    reveal_with_fuel(backoff_secs, 5);
}

/// How one attempt ended, as far as retrying is concerned.
#[derive(Debug, Clone, Copy, PartialEq, Eq, Structural)]
pub enum AttemptOutcome {
    Success,
    /// A failure that may pass.
    Transient,
    /// A failure that does not pass.
    Permanent,
}

/// How a run of attempts ended.
#[derive(Debug, Clone, Copy, PartialEq, Eq, Structural)]
pub enum Verdict {
    Succeeded,
    Exhausted,
    Fatal,
    /// The attempts listed ran out before the transfer was concluded.
    Unfinished,
}

/// A run of attempts: how it ended, how many attempts were made, and the
/// waits between them, in seconds.
pub struct Replay {
    pub verdict: Verdict,
    pub calls: nat,
    pub delays: Seq<nat>,
}

/// The run that results when the attempts end as `outcomes` lists, starting
/// with `retries` retries already made. Every failure is decided by
/// [`may_retry`], and every wait is [`backoff_secs`] of the retries made before it.
pub open spec fn replay_from(retries: nat, outcomes: Seq<AttemptOutcome>) -> Replay
    decreases outcomes.len(),
{
    if outcomes.len() == 0 {
        Replay { verdict: Verdict::Unfinished, calls: 0, delays: Seq::empty() }
    } else {
        match outcomes[0] {
            AttemptOutcome::Success => Replay {
                verdict: Verdict::Succeeded,
                calls: 1,
                delays: Seq::empty(),
            },
            AttemptOutcome::Permanent => Replay {
                verdict: Verdict::Fatal,
                calls: 1,
                delays: Seq::empty(),
            },
            AttemptOutcome::Transient => if may_retry(retries, true) {
                let rest = replay_from(retries + 1, outcomes.skip(1));
                Replay {
                    verdict: rest.verdict,
                    calls: rest.calls + 1,
                    delays: seq![backoff_secs(retries)] + rest.delays,
                }
            } else {
                Replay { verdict: Verdict::Exhausted, calls: 1, delays: Seq::empty() }
            },
        }
    }
}

/// What a run has come to.
#[derive(Debug, Clone, PartialEq, Eq)]
pub struct RunReport {
    pub verdict: Verdict,
    /// Number of attempts made.
    pub calls: u32,
    /// The waits between the attempts, in seconds.
    pub delays: Vec<u64>,
}

/// The waits as numbers.
pub open spec fn waits_of(delays: Seq<u64>) -> Seq<nat> {
    Seq::new(delays.len(), |i: int| delays[i] as nat)
}

/// The run from the first attempt on.
pub open spec fn replay(outcomes: Seq<AttemptOutcome>) -> Replay {
    replay_from(0, outcomes)
}

/// `n` transient failures in a row.
pub open spec fn transients(n: nat) -> Seq<AttemptOutcome> {
    Seq::new(n, |i: int| AttemptOutcome::Transient)
}

/// The waits before the first `n` retries that follow `retries` earlier ones.
pub open spec fn backoffs(retries: nat, n: nat) -> Seq<nat> {
    Seq::new(n, |i: int| backoff_secs((retries + i) as nat))
}

proof fn lemma_transients_then(retries: nat, n: nat, tail: Seq<AttemptOutcome>)
    requires
        retries + n <= MAX_RETRIES,
    ensures
        replay_from(retries, transients(n) + tail) == (Replay {
            verdict: replay_from(retries + n, tail).verdict,
            calls: replay_from(retries + n, tail).calls + n,
            delays: backoffs(retries, n) + replay_from(retries + n, tail).delays,
        }),
    decreases n,
{
    let all = transients(n) + tail;
    let end = replay_from(retries + n, tail);
    if n == 0 {
        assert(all =~= tail);
        assert(backoffs(retries, 0) + end.delays =~= end.delays);
    } else {
        assert(all[0] == AttemptOutcome::Transient);
        assert(all.skip(1) =~= transients((n - 1) as nat) + tail);
        lemma_transients_then(retries + 1, (n - 1) as nat, tail);
        assert(seq![backoff_secs(retries)] + (backoffs(retries + 1, (n - 1) as nat) + end.delays)
            =~= backoffs(retries, n) + end.delays);
    }
}

/// After `n` transient failures, `n` at most [`MAX_RETRIES`], a success ends
/// the run as a success: `n + 1` attempts were made, and the waits between
/// them were 1, 2, 4 seconds, as far as there were retries.
pub proof fn lemma_retries_then_success(n: nat)
    requires
        n <= MAX_RETRIES,
    ensures
        replay(transients(n).push(AttemptOutcome::Success)) == (Replay {
            verdict: Verdict::Succeeded,
            calls: n + 1,
            delays: backoffs(0, n),
        }),
        backoffs(0, n) == seq![1nat, 2, 4].take(n as int),
{
    let tail = seq![AttemptOutcome::Success];
    assert(transients(n).push(AttemptOutcome::Success) =~= transients(n) + tail);
    lemma_transients_then(0, n, tail);
    assert(backoffs(0, n) + Seq::<nat>::empty() =~= backoffs(0, n));
    lemma_backoff_values();
    assert(backoffs(0, n) =~= seq![1nat, 2, 4].take(n as int));
}

/// One transient failure more than [`MAX_RETRIES`] ends the run as exhausted,
/// whatever would have followed: four attempts were made, after waits of 1,
/// 2 and 4 seconds.
pub proof fn lemma_retries_exhausted(later: Seq<AttemptOutcome>)
    ensures
        replay(transients((MAX_RETRIES + 1) as nat) + later) == (Replay {
            verdict: Verdict::Exhausted,
            calls: (MAX_RETRIES + 1) as nat,
            delays: seq![1nat, 2, 4],
        }),
{
    let tail = seq![AttemptOutcome::Transient] + later;
    assert(transients((MAX_RETRIES + 1) as nat) + later =~= transients(MAX_RETRIES as nat) + tail);
    lemma_transients_then(0, MAX_RETRIES as nat, tail);
    assert(tail[0] == AttemptOutcome::Transient);
    lemma_backoff_values();
    assert(backoffs(0, MAX_RETRIES as nat) + Seq::<nat>::empty() =~= seq![1nat, 2, 4]);
}

/// A failure that does not pass ends the run at once: it is the only attempt,
/// and nothing was waited for.
pub proof fn lemma_permanent_failure_is_final(later: Seq<AttemptOutcome>)
    ensures
        replay(seq![AttemptOutcome::Permanent] + later) == (Replay {
            verdict: Verdict::Fatal,
            calls: 1,
            delays: Seq::empty(),
        }),
{
    assert((seq![AttemptOutcome::Permanent] + later)[0] == AttemptOutcome::Permanent);
}

/// Plays the policy through for attempts that end as `outcomes` lists: every
/// failure is put to a fresh [`RetryState`], and what it decides is followed
/// until the transfer succeeds, is given up, or the outcomes run out.
pub fn simulate(outcomes: &Vec<AttemptOutcome>) -> (report: RunReport)
    ensures
        report.verdict == replay(outcomes@).verdict,
        report.calls == replay(outcomes@).calls,
        waits_of(report.delays@) == replay(outcomes@).delays,
{
    let mut state = RetryState::new();
    let mut delays: Vec<u64> = Vec::new();
    let mut i: usize = 0;
    assert(outcomes@.skip(0) == outcomes@);
    assert(waits_of(delays@) + replay(outcomes@).delays == replay(outcomes@).delays);
    while i < outcomes.len()
        invariant
            i <= outcomes.len(),
            i <= MAX_RETRIES,
            state.wf(),
            state@ == i,
            replay(outcomes@).verdict == replay_from(i as nat, outcomes@.skip(i as int)).verdict,
            replay(outcomes@).calls == i + replay_from(i as nat, outcomes@.skip(i as int)).calls,
            replay(outcomes@).delays == waits_of(delays@) + replay_from(
                i as nat,
                outcomes@.skip(i as int),
            ).delays,
        decreases outcomes.len() - i,
    {
        let ghost rest = outcomes@.skip(i as int);
        assert(rest[0] == outcomes@[i as int]);
        assert(rest.skip(1) == outcomes@.skip(i + 1));
        let ghost waited = waits_of(delays@);
        let transient = match outcomes[i] {
            AttemptOutcome::Success => {
                assert(waited + Seq::<nat>::empty() == waited);
                return RunReport { verdict: Verdict::Succeeded, calls: i as u32 + 1, delays };
            },
            AttemptOutcome::Transient => true,
            AttemptOutcome::Permanent => false,
        };
        match state.decide(transient, String::new()) {
            RetryDecision::RetryAfter { delay_secs, .. } => {
                delays.push(delay_secs);
                proof {
                    lemma_backoff_values();
                    let later = replay_from((i + 1) as nat, outcomes@.skip(i + 1)).delays;
                    assert(waits_of(delays@) == waited.push(backoff_secs(i as nat)));
                    assert(waited + (seq![backoff_secs(i as nat)] + later) == waited.push(
                        backoff_secs(i as nat),
                    ) + later);
                }
            },
            RetryDecision::GiveUp(_) => {
                assert(waited + Seq::<nat>::empty() == waited);
                let verdict = if transient {
                    Verdict::Exhausted
                } else {
                    Verdict::Fatal
                };
                return RunReport { verdict, calls: i as u32 + 1, delays };
            },
        }
        i += 1;
    }
    assert(waits_of(delays@) + Seq::<nat>::empty() == waits_of(delays@));
    RunReport { verdict: Verdict::Unfinished, calls: i as u32, delays }
}

} // verus!
