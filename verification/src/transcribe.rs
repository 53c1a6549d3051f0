//! Turning a video into text: how a long video is cut into chunks, what the
//! files that are made along the way are called, and how the chunks'
//! transcripts become one.

use vstd::prelude::*;
use crate::text::{decimal, join_texts, joined, push_decimal, push_str, string_of, strings_of};

verus! {

/// Length of a chunk in seconds. A video of more than this is cut into chunks.
pub const CHUNK_SECS: u32 = 1300;

/// Size in MiB above which an audio file is compressed before it is sent.
pub const COMPRESS_ABOVE_MB: u64 = 24;

/// A video of `duration` seconds is cut into chunks.
pub open spec fn is_long(duration: u32) -> bool {
    duration > CHUNK_SECS
}

/// Number of chunks of a video of `duration` seconds: `duration / CHUNK_SECS`, rounded up.
pub open spec fn chunk_count_of(duration: u32) -> nat {
    (duration + CHUNK_SECS - 1) as nat / (CHUNK_SECS as nat)
}

/// Second at which chunk `index` begins; chunks are numbered from 0.
pub open spec fn chunk_start(index: u32) -> nat {
    (index * CHUNK_SECS) as nat
}

/// Length of chunk `index` of a video of `duration` seconds: a full chunk,
/// or what is left of the video where that is less.
pub open spec fn chunk_length(index: u32, duration: u32) -> nat {
    if chunk_start(index) + CHUNK_SECS > duration {
        (duration - chunk_start(index)) as nat
    } else {
        CHUNK_SECS as nat
    }
}

/// Whether a video of `duration` seconds is cut into chunks.
pub fn needs_chunks(duration: u32) -> (long: bool)
    ensures
        long == is_long(duration),
{
    duration > CHUNK_SECS
}

/// Number of chunks of a video of `duration` seconds.
pub fn chunk_count(duration: u32) -> (count: u32)
    ensures
        count == chunk_count_of(duration),
{
    assert(CHUNK_SECS == 1300);
    if duration % CHUNK_SECS == 0 {
        duration / CHUNK_SECS
    } else {
        duration / CHUNK_SECS + 1
    }
}

/// One chunk of a video.
#[derive(Debug, Clone, Copy, PartialEq, Eq, Structural)]
pub struct ChunkSpan {
    /// Second at which the chunk begins.
    pub start: u32,
    /// Length of the chunk in seconds.
    pub length: u32,
}

/// Where chunk `index` of a video of `duration` seconds begins, and how long it is.
pub fn chunk_span(index: u32, duration: u32) -> (span: ChunkSpan)
    requires
        index < chunk_count_of(duration),
    ensures
        span.start == chunk_start(index),
        span.length == chunk_length(index, duration),
        1 <= span.length <= CHUNK_SECS,
        span.start + span.length <= duration,
{
    assert(CHUNK_SECS == 1300);
    let start: u32 = index * CHUNK_SECS;
    let length: u32 = if duration - start < CHUNK_SECS {
        duration - start
    } else {
        CHUNK_SECS
    };
    ChunkSpan { start, length }
}

/// The chunks cover the video without gap or overlap: each begins where
/// the one before it ended, the first at second 0, and the last ends with
/// the video. All chunks but the last are full.
pub proof fn lemma_chunks_tile(duration: u32)
    ensures
        forall|index: u32|
            index + 1 < chunk_count_of(duration) ==> chunk_start(index) + #[trigger] chunk_length(
                index,
                duration,
            ) == chunk_start((index + 1) as u32) && chunk_length(index, duration) == CHUNK_SECS,
        chunk_count_of(duration) > 0 ==> chunk_start((chunk_count_of(duration) - 1) as u32)
            + chunk_length((chunk_count_of(duration) - 1) as u32, duration) == duration,
        chunk_start(0) == 0,
        duration == 0 <==> chunk_count_of(duration) == 0,
{
    assert(CHUNK_SECS == 1300);
}

/// Whether an audio file of `bytes` bytes is compressed before it is sent:
/// whether it has more than [`COMPRESS_ABOVE_MB`] whole MiB.
pub fn needs_compression(bytes: u64) -> (compress: bool)
    ensures
        compress == (bytes / 1048576 > COMPRESS_ABOVE_MB),
{
    bytes / 1024 / 1024 > COMPRESS_ABOVE_MB
}

/// A file that is made for a video.
#[derive(Debug, Clone, Copy, PartialEq, Eq, Structural)]
pub enum Artifact {
    Audio,
    Transcript,
    /// The audio of the chunk with this index.
    ChunkAudio(u32),
    /// The transcript of the chunk with this index.
    ChunkTranscript(u32),
    Content,
    Titles,
    Descriptions,
    Status,
}

/// The name of a file made for the video called `video_name`.
pub open spec fn artifact_name_of(video_name: Seq<char>, artifact: Artifact) -> Seq<char> {
    match artifact {
        Artifact::Audio => video_name + ".mp3"@,
        Artifact::Transcript => video_name + "_transcript.txt"@,
        Artifact::ChunkAudio(index) => video_name + "_chunk_"@ + decimal(index as nat) + ".mp3"@,
        Artifact::ChunkTranscript(index) => video_name + "_chunk_"@ + decimal(index as nat)
            + "_transcript.txt"@,
        Artifact::Content => video_name + "_content.json"@,
        Artifact::Titles => video_name + "_titles.txt"@,
        Artifact::Descriptions => video_name + "_descriptions.txt"@,
        Artifact::Status => video_name + "_status.txt"@,
    }
}

/// The name of a file made for the video called `video_name`.
pub fn artifact_name(video_name: &str, artifact: Artifact) -> (name: String)
    ensures
        name@ == artifact_name_of(video_name@, artifact),
{
    let mut out: Vec<char> = Vec::new();
    push_str(&mut out, video_name);
    match artifact {
        Artifact::Audio => push_str(&mut out, ".mp3"),
        Artifact::Transcript => push_str(&mut out, "_transcript.txt"),
        Artifact::ChunkAudio(index) => {
            push_str(&mut out, "_chunk_");
            push_decimal(&mut out, index as u64);
            push_str(&mut out, ".mp3");
        },
        Artifact::ChunkTranscript(index) => {
            push_str(&mut out, "_chunk_");
            push_decimal(&mut out, index as u64);
            push_str(&mut out, "_transcript.txt");
        },
        Artifact::Content => push_str(&mut out, "_content.json"),
        Artifact::Titles => push_str(&mut out, "_titles.txt"),
        Artifact::Descriptions => push_str(&mut out, "_descriptions.txt"),
        Artifact::Status => push_str(&mut out, "_status.txt"),
    }
    assert(Seq::<char>::empty() + artifact_name_of(video_name@, artifact) =~= artifact_name_of(
        video_name@,
        artifact,
    ));
    string_of(&out)
}

/// The texts of `items`, each with its number in front, from 1, one to a line.
pub open spec fn numbered(items: Seq<Seq<char>>) -> Seq<Seq<char>> {
    Seq::new(items.len(), |i: int| decimal((i + 1) as nat) + ". "@ + items[i])
}

/// The texts of `items`, each under a heading that carries `title` and the
/// text's number, from 1.
pub open spec fn sections(title: Seq<char>, items: Seq<Seq<char>>) -> Seq<Seq<char>> {
    Seq::new(
        items.len(),
        |i: int| "=== "@ + title + " "@ + decimal((i + 1) as nat) + " ===\n"@ + items[i] + "\n"@,
    )
}

/// The titles as they are written to their file: numbered, one to a line.
pub fn numbered_list(items: &Vec<String>) -> (text: String)
    ensures
        text@ == joined(numbered(strings_of(items@)), "\n"@),
{
    let mut lines: Vec<String> = Vec::new();
    let mut i: usize = 0;
    while i < items.len()
        invariant
            i <= items.len(),
            lines@.len() == i,
            forall|k: int|
                0 <= k < i ==> (#[trigger] lines@[k])@ == numbered(strings_of(items@))[k],
        decreases items.len() - i,
    {
        let mut out: Vec<char> = Vec::new();
        push_decimal(&mut out, i as u64 + 1);
        push_str(&mut out, ". ");
        push_str(&mut out, items[i].as_str());
        assert(out@ == numbered(strings_of(items@))[i as int]);
        lines.push(string_of(&out));
        i += 1;
    }
    assert(strings_of(lines@) == numbered(strings_of(items@)));
    join_texts(&lines, "\n")
}

/// The texts as they are written to their file: each under a heading with
/// `title` and its number, the sections set apart by an empty line.
pub fn section_list(title: &str, items: &Vec<String>) -> (text: String)
    ensures
        text@ == joined(sections(title@, strings_of(items@)), "\n"@),
{
    let mut parts: Vec<String> = Vec::new();
    let mut i: usize = 0;
    while i < items.len()
        invariant
            i <= items.len(),
            parts@.len() == i,
            forall|k: int|
                0 <= k < i ==> (#[trigger] parts@[k])@ == sections(title@, strings_of(items@))[k],
        decreases items.len() - i,
    {
        let mut out: Vec<char> = Vec::new();
        push_str(&mut out, "=== ");
        push_str(&mut out, title);
        push_str(&mut out, " ");
        push_decimal(&mut out, i as u64 + 1);
        push_str(&mut out, " ===\n");
        push_str(&mut out, items[i].as_str());
        push_str(&mut out, "\n");
        assert(out@ == sections(title@, strings_of(items@))[i as int]);
        parts.push(string_of(&out));
        i += 1;
    }
    assert(strings_of(parts@) == sections(title@, strings_of(items@)));
    join_texts(&parts, "\n")
}

/// The heading of a description.
pub open spec fn description_title() -> Seq<char> {
    "\u{63cf}\u{8ff0}"@
}

/// The heading of a status update.
pub open spec fn status_title() -> Seq<char> {
    "\u{52a8}\u{6001}"@
}

/// The descriptions as they are written to their file.
pub fn description_list(items: &Vec<String>) -> (text: String)
    ensures
        text@ == joined(sections(description_title(), strings_of(items@)), "\n"@),
{
    section_list("\u{63cf}\u{8ff0}", items)
}

/// The status updates as they are written to their file.
pub fn status_list(items: &Vec<String>) -> (text: String)
    ensures
        text@ == joined(sections(status_title(), strings_of(items@)), "\n"@),
{
    section_list("\u{52a8}\u{6001}", items)
}

/// `sorted` with `item` entered behind the last entry whose index is not
/// above its own.
pub open spec fn entered(sorted: Seq<(u32, Seq<char>)>, item: (u32, Seq<char>)) -> Seq<
    (u32, Seq<char>),
>
    decreases sorted.len(),
{
    if sorted.len() == 0 {
        seq![item]
    } else if sorted.last().0 <= item.0 {
        sorted.push(item)
    } else {
        entered(sorted.drop_last(), item).push(sorted.last())
    }
}

/// The chunks in the order of their indices; chunks of the same index keep
/// the order in which they came.
pub open spec fn by_index(chunks: Seq<(u32, Seq<char>)>) -> Seq<(u32, Seq<char>)>
    decreases chunks.len(),
{
    if chunks.len() == 0 {
        Seq::empty()
    } else {
        entered(by_index(chunks.drop_last()), chunks.last())
    }
}

/// The chunks with their transcripts as texts.
pub open spec fn chunk_views(chunks: Seq<(u32, String)>) -> Seq<(u32, Seq<char>)> {
    Seq::new(chunks.len(), |i: int| (chunks[i].0, chunks[i].1@))
}

/// The transcripts of the chunks.
pub open spec fn transcripts_of(chunks: Seq<(u32, Seq<char>)>) -> Seq<Seq<char>> {
    Seq::new(chunks.len(), |i: int| chunks[i].1)
}

/// The transcript of the whole video: those of its chunks in the order of
/// their indices, with a blank between each two.
pub open spec fn merged(chunks: Seq<(u32, Seq<char>)>) -> Seq<char> {
    joined(transcripts_of(by_index(chunks)), " "@)
}

/// The chunks stand in the order of their indices.
pub open spec fn ordered_by_index(chunks: Seq<(u32, Seq<char>)>) -> bool {
    forall|i: int, j: int| 0 <= i < j < chunks.len() ==> chunks[i].0 <= chunks[j].0
}

proof fn lemma_entered_keeps_order(sorted: Seq<(u32, Seq<char>)>, item: (u32, Seq<char>))
    requires
        ordered_by_index(sorted),
    ensures
        ordered_by_index(entered(sorted, item)),
        entered(sorted, item).to_multiset() == sorted.to_multiset().insert(item),
    decreases sorted.len(),
{
    broadcast use vstd::multiset::group_multiset_axioms;

    let after = entered(sorted, item);
    if sorted.len() == 0 {
        sorted.to_multiset_ensures();
        assert(after == sorted.push(item));
    } else if sorted.last().0 <= item.0 {
        sorted.to_multiset_ensures();
        assert forall|i: int, j: int| 0 <= i < j < after.len() implies after[i].0
            <= after[j].0 by {
            if j == after.len() - 1 && i < sorted.len() - 1 {
                assert(sorted[i].0 <= sorted[sorted.len() - 1].0);
            }
        }
    } else {
        let rest = sorted.drop_last();
        let inner = entered(rest, item);
        assert(ordered_by_index(rest));
        lemma_entered_keeps_order(rest, item);
        rest.to_multiset_ensures();
        inner.to_multiset_ensures();
        assert(sorted == rest.push(sorted.last()));
        assert(after.to_multiset() =~= sorted.to_multiset().insert(item));
        assert forall|i: int, j: int| 0 <= i < j < after.len() implies after[i].0
            <= after[j].0 by {
            if j == after.len() - 1 {
                assert(inner.contains(inner[i]));
                assert(inner.to_multiset().count(inner[i]) > 0);
                if inner[i] != item {
                    assert(rest.to_multiset().count(inner[i]) > 0);
                    assert(rest.contains(inner[i]));
                    let k = choose|k: int| 0 <= k < rest.len() && rest[k] == inner[i];
                    assert(sorted[k].0 <= sorted[sorted.len() - 1].0);
                }
            } else {
                assert(inner[i].0 <= inner[j].0);
            }
        }
    }
}

/// Putting the chunks in order loses none and adds none, and leaves them in
/// the order of their indices.
pub proof fn lemma_by_index_orders(chunks: Seq<(u32, Seq<char>)>)
    ensures
        ordered_by_index(by_index(chunks)),
        by_index(chunks).to_multiset() == chunks.to_multiset(),
    decreases chunks.len(),
{
    broadcast use vstd::multiset::group_multiset_axioms;

    if chunks.len() == 0 {
        assert(chunks == Seq::<(u32, Seq<char>)>::empty());
    } else {
        let rest = chunks.drop_last();
        lemma_by_index_orders(rest);
        lemma_entered_keeps_order(by_index(rest), chunks.last());
        rest.to_multiset_ensures();
        assert(chunks == rest.push(chunks.last()));
        assert(rest.push(chunks.last()).to_multiset() == rest.to_multiset().insert(chunks.last()));
    }
}

proof fn lemma_entered_at(sorted: Seq<(u32, Seq<char>)>, item: (u32, Seq<char>), at: int)
    requires
        0 <= at <= sorted.len(),
        forall|k: int| at <= k < sorted.len() ==> (#[trigger] sorted[k]).0 > item.0,
        at > 0 ==> sorted[at - 1].0 <= item.0,
    ensures
        entered(sorted, item) == sorted.insert(at, item),
    decreases sorted.len() - at,
{
    if at == sorted.len() {
        assert(sorted.insert(at, item) == sorted.push(item));
    } else {
        let rest = sorted.drop_last();
        assert(sorted[sorted.len() - 1].0 > item.0);
        lemma_entered_at(rest, item, at);
        assert(rest.insert(at, item).push(sorted.last()) == sorted.insert(at, item));
    }
}

/// The transcript of the whole video, made of those of its chunks, which
/// may have come in any order.
pub fn merge_transcripts(chunks: &Vec<(u32, String)>) -> (text: String)
    ensures
        text@ == merged(chunk_views(chunks@)),
{
    let mut ordered: Vec<(u32, String)> = Vec::new();
    let mut i: usize = 0;
    assert(chunk_views(chunks@).take(0) == Seq::<(u32, Seq<char>)>::empty());
    assert(chunk_views(ordered@) == Seq::<(u32, Seq<char>)>::empty());
    while i < chunks.len()
        invariant
            i <= chunks.len(),
            chunk_views(ordered@) == by_index(chunk_views(chunks@).take(i as int)),
        decreases chunks.len() - i,
    {
        let index = chunks[i].0;
        let ghost item = (index, chunks@[i as int].1@);
        let ghost before = chunk_views(ordered@);
        assert(chunk_views(chunks@).take(i + 1).drop_last() == chunk_views(chunks@).take(i as int));
        assert(chunk_views(chunks@).take(i + 1).last() == item);
        let mut at: usize = ordered.len();
        while at > 0 && ordered[at - 1].0 > index
            invariant
                at <= ordered.len(),
                chunk_views(ordered@) == before,
                forall|k: int| at <= k < before.len() ==> (#[trigger] before[k]).0 > index,
            decreases at,
        {
            assert(before[at - 1].0 == ordered@[at - 1].0);
            at -= 1;
        }
        proof {
            if at > 0 {
                assert(before[at - 1].0 == ordered@[at - 1].0);
            }
            lemma_entered_at(before, item, at as int);
        }
        ordered.insert(at, (index, chunks[i].1.clone()));
        assert(chunk_views(ordered@) == before.insert(at as int, item));
        i += 1;
    }
    assert(chunk_views(chunks@).take(chunks@.len() as int) == chunk_views(chunks@));
    let mut texts: Vec<String> = Vec::new();
    let mut k: usize = 0;
    while k < ordered.len()
        invariant
            k <= ordered.len(),
            texts@.len() == k,
            forall|j: int| 0 <= j < k ==> (#[trigger] texts@[j])@ == ordered@[j].1@,
        decreases ordered.len() - k,
    {
        texts.push(ordered[k].1.clone());
        k += 1;
    }
    assert(strings_of(texts@) == transcripts_of(chunk_views(ordered@)));
    join_texts(&texts, " ")
}

/// What a short video still needs before it can be transcribed.
#[derive(Debug, Clone, Copy, PartialEq, Eq, Structural)]
pub enum TranscriptPlan {
    /// The transcript was made before: it is read, and nothing is sent.
    UseCachedTranscript,
    /// The audio was extracted before: it is sent as it is.
    TranscribeCachedAudio,
    /// The audio is extracted first, then sent.
    ExtractAndTranscribe,
}

/// What is done for a video, given which of its files are there already. A
/// transcript that is there is used, whatever else is there.
pub fn transcript_plan(transcript_exists: bool, audio_exists: bool) -> (plan: TranscriptPlan)
    ensures
        plan == if transcript_exists {
            TranscriptPlan::UseCachedTranscript
        } else if audio_exists {
            TranscriptPlan::TranscribeCachedAudio
        } else {
            TranscriptPlan::ExtractAndTranscribe
        },
{
    if transcript_exists {
        TranscriptPlan::UseCachedTranscript
    } else if audio_exists {
        TranscriptPlan::TranscribeCachedAudio
    } else {
        TranscriptPlan::ExtractAndTranscribe
    }
}

/// What is being done with a chunk.
#[derive(Debug, Clone, Copy, PartialEq, Eq, Structural)]
pub enum ChunkPhase {
    Starting,
    Processing,
    Cached,
    Extracting,
    Transcribing,
    Completed,
}

/// What the display shows of chunk `index` of a video of `duration`
/// seconds: the chunk's number, from 1, of the number of chunks, and what is
/// being done with it. While it is processed, its seconds are told too.
pub open spec fn chunk_status_text(index: u32, duration: u32, phase: ChunkPhase) -> Seq<char> {
    decimal((index + 1) as nat) + "/"@ + decimal(chunk_count_of(duration)) + match phase {
        ChunkPhase::Starting => ": Starting..."@,
        ChunkPhase::Processing => ": Processing ("@ + decimal(chunk_start(index)) + "-"@ + decimal(
            chunk_start(index) + chunk_length(index, duration),
        ) + "s)"@,
        ChunkPhase::Cached => ": Using cached transcript"@,
        ChunkPhase::Extracting => ": Extracting audio"@,
        ChunkPhase::Transcribing => ": Transcribing"@,
        ChunkPhase::Completed => ": Completed"@,
    }
}

/// What the display shows of a chunk.
pub fn chunk_status(index: u32, duration: u32, phase: ChunkPhase) -> (text: String)
    requires
        index < chunk_count_of(duration),
    ensures
        text@ == chunk_status_text(index, duration, phase),
{
    let span = chunk_span(index, duration);
    let mut out: Vec<char> = Vec::new();
    push_decimal(&mut out, index as u64 + 1);
    push_str(&mut out, "/");
    push_decimal(&mut out, chunk_count(duration) as u64);
    match phase {
        ChunkPhase::Starting => push_str(&mut out, ": Starting..."),
        ChunkPhase::Processing => {
            push_str(&mut out, ": Processing (");
            push_decimal(&mut out, span.start as u64);
            push_str(&mut out, "-");
            push_decimal(&mut out, span.start as u64 + span.length as u64);
            push_str(&mut out, "s)");
        },
        ChunkPhase::Cached => push_str(&mut out, ": Using cached transcript"),
        ChunkPhase::Extracting => push_str(&mut out, ": Extracting audio"),
        ChunkPhase::Transcribing => push_str(&mut out, ": Transcribing"),
        ChunkPhase::Completed => push_str(&mut out, ": Completed"),
    }
    assert(Seq::<char>::empty() + chunk_status_text(index, duration, phase) =~= chunk_status_text(
        index,
        duration,
        phase,
    ));
    string_of(&out)
}

/// What is reported when chunk `index` could not be processed.
pub fn chunk_failure(index: u32, reason: &str) -> (text: String)
    ensures
        text@ == "Failed to process chunk "@ + decimal(index as nat) + ": "@ + reason@,
{
    let mut out: Vec<char> = Vec::new();
    push_str(&mut out, "Failed to process chunk ");
    push_decimal(&mut out, index as u64);
    push_str(&mut out, ": ");
    push_str(&mut out, reason);
    assert(Seq::<char>::empty() + "Failed to process chunk "@ + decimal(index as nat) + ": "@
        + reason@ =~= "Failed to process chunk "@ + decimal(index as nat) + ": "@ + reason@);
    string_of(&out)
}

} // verus!
