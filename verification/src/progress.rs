//! What a transfer tells the progress display: its length, the bytes sent so
//! far, and a line of text.

use vstd::prelude::*;
use crate::text::{decimal, push_decimal, push_str, string_of};
use crate::upload::MAX_RETRIES;

verus! {

/// One instruction to the progress display.
#[derive(Debug, Clone)]
pub enum ProgressEvent {
    /// The transfer is `0` bytes long.
    SetLength(u64),
    /// `0` bytes have been sent.
    SetPosition(u64),
    SetMessage(String),
    /// The transfer is over; the display keeps the message.
    Finish(String),
}

/// What a [`ProgressEvent`] holds.
pub enum EventView {
    SetLength(u64),
    SetPosition(u64),
    SetMessage(Seq<char>),
    Finish(Seq<char>),
}

impl View for ProgressEvent {
    type V = EventView;

    open spec fn view(&self) -> EventView {
        match *self {
            ProgressEvent::SetLength(length) => EventView::SetLength(length),
            ProgressEvent::SetPosition(position) => EventView::SetPosition(position),
            ProgressEvent::SetMessage(text) => EventView::SetMessage(text@),
            ProgressEvent::Finish(text) => EventView::Finish(text@),
        }
    }
}

/// What the events of `events` hold.
pub open spec fn views_of(events: Seq<ProgressEvent>) -> Seq<EventView> {
    Seq::new(events.len(), |i: int| events[i]@)
}

/// The line shown while a file is sent in one request.
pub open spec fn uploading_text(file_name: Seq<char>) -> Seq<char> {
    "Uploading "@ + file_name
}

/// The line shown while a file is sent in parts.
pub open spec fn multipart_text(file_name: Seq<char>) -> Seq<char> {
    "Multipart upload "@ + file_name
}

/// The line left behind by a finished transfer.
pub open spec fn done_text(file_name: Seq<char>) -> Seq<char> {
    "\u{2713} "@ + file_name
}

/// The line shown while the next attempt is waited for.
pub open spec fn retry_text(attempt: u32, path: Seq<char>) -> Seq<char> {
    "Retry "@ + decimal(attempt as nat) + "/"@ + decimal(MAX_RETRIES as nat) + " for "@ + path
}

fn line(prefix: &str, rest: &str) -> (text: String)
    ensures
        text@ == prefix@ + rest@,
{
    let mut out: Vec<char> = Vec::new();
    push_str(&mut out, prefix);
    push_str(&mut out, rest);
    assert(Seq::<char>::empty() + prefix@ + rest@ =~= prefix@ + rest@);
    string_of(&out)
}

/// A transfer of `size` bytes in one request begins: nothing has been sent.
pub fn single_shot_started(size: u64, file_name: &str) -> (events: Vec<ProgressEvent>)
    ensures
        views_of(events@) == seq![
            EventView::SetLength(size),
            EventView::SetMessage(uploading_text(file_name@)),
            EventView::SetPosition(0),
        ],
{
    let mut events: Vec<ProgressEvent> = Vec::new();
    events.push(ProgressEvent::SetLength(size));
    events.push(ProgressEvent::SetMessage(line("Uploading ", file_name)));
    events.push(ProgressEvent::SetPosition(0));
    events
}

/// A transfer of `size` bytes in one request has succeeded: all of its bytes
/// have been sent.
pub fn single_shot_finished(size: u64, file_name: &str) -> (events: Vec<ProgressEvent>)
    ensures
        views_of(events@) == seq![
            EventView::SetPosition(size),
            EventView::Finish(done_text(file_name@)),
        ],
{
    let mut events: Vec<ProgressEvent> = Vec::new();
    events.push(ProgressEvent::SetPosition(size));
    events.push(ProgressEvent::Finish(line("\u{2713} ", file_name)));
    events
}

/// A transfer of `size` bytes in parts begins: nothing has been sent.
pub fn multipart_started(size: u64, file_name: &str) -> (events: Vec<ProgressEvent>)
    ensures
        views_of(events@) == seq![
            EventView::SetLength(size),
            EventView::SetPosition(0),
            EventView::SetMessage(multipart_text(file_name@)),
        ],
{
    let mut events: Vec<ProgressEvent> = Vec::new();
    events.push(ProgressEvent::SetLength(size));
    events.push(ProgressEvent::SetPosition(0));
    events.push(ProgressEvent::SetMessage(line("Multipart upload ", file_name)));
    events
}

/// A part has been accepted, and `uploaded` bytes are through.
pub fn part_finished(uploaded: u64) -> (events: Vec<ProgressEvent>)
    ensures
        views_of(events@) == seq![EventView::SetPosition(uploaded)],
{
    let mut events: Vec<ProgressEvent> = Vec::new();
    events.push(ProgressEvent::SetPosition(uploaded));
    events
}

/// A transfer in parts has been completed.
pub fn multipart_finished(file_name: &str) -> (events: Vec<ProgressEvent>)
    ensures
        views_of(events@) == seq![EventView::Finish(done_text(file_name@))],
{
    let mut events: Vec<ProgressEvent> = Vec::new();
    events.push(ProgressEvent::Finish(line("\u{2713} ", file_name)));
    events
}

/// Attempt number `attempt` after the first is waited for.
pub fn retry_announced(attempt: u32, path: &str) -> (events: Vec<ProgressEvent>)
    ensures
        views_of(events@) == seq![EventView::SetMessage(retry_text(attempt, path@))],
{
    let mut out: Vec<char> = Vec::new();
    push_str(&mut out, "Retry ");
    push_decimal(&mut out, attempt as u64);
    push_str(&mut out, "/");
    push_decimal(&mut out, MAX_RETRIES as u64);
    push_str(&mut out, " for ");
    push_str(&mut out, path);
    assert(Seq::<char>::empty() + retry_text(attempt, path@) =~= retry_text(attempt, path@));
    let mut events: Vec<ProgressEvent> = Vec::new();
    events.push(ProgressEvent::SetMessage(string_of(&out)));
    events
}

/// A retried attempt begins, from byte `resume_from` of the file.
pub fn retry_started(resume_from: u64) -> (events: Vec<ProgressEvent>)
    ensures
        views_of(events@) == seq![EventView::SetPosition(resume_from)],
{
    let mut events: Vec<ProgressEvent> = Vec::new();
    events.push(ProgressEvent::SetPosition(resume_from));
    events
}

} // verus!
