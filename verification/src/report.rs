//! What a run reports: the outcome for each file, the counters that the
//! workers keep, and the lines of the final summary.

use vstd::prelude::*;
use crate::size::{fixed, push_fixed, GB, KB, MB};
use crate::text::{
    chars_of, decimal, is_text, lemma_lex_total, lemma_lex_transitive, lex_le, precedes,
    push_decimal, push_str, string_of,
};
use vstd::seq_lib::{to_multiset_insert, to_multiset_remove};

verus! {

/// A size as the uploader reports it: in GB, MB or KB with two decimals, by
/// the largest of these units that the size reaches, or in bytes below 1 KB.
pub open spec fn size_text(bytes: u64) -> Seq<char> {
    if bytes >= GB {
        fixed(bytes as nat, GB as nat, 2) + " GB"@
    } else if bytes >= MB {
        fixed(bytes as nat, MB as nat, 2) + " MB"@
    } else if bytes >= KB {
        fixed(bytes as nat, KB as nat, 2) + " KB"@
    } else {
        decimal(bytes as nat) + " B"@
    }
}

/// A size in the words of the report.
pub fn format_size(bytes: u64) -> (text: String)
    ensures
        text@ == size_text(bytes),
{
    let mut out: Vec<char> = Vec::new();
    if bytes >= GB {
        push_fixed(&mut out, bytes, GB, 2);
        push_str(&mut out, " GB");
    } else if bytes >= MB {
        push_fixed(&mut out, bytes, MB, 2);
        push_str(&mut out, " MB");
    } else if bytes >= KB {
        push_fixed(&mut out, bytes, KB, 2);
        push_str(&mut out, " KB");
    } else {
        push_decimal(&mut out, bytes);
        push_str(&mut out, " B");
    }
    assert(Seq::<char>::empty() + size_text(bytes) =~= size_text(bytes));
    string_of(&out)
}

/// The outcome for one file.
#[derive(Debug, Clone)]
pub enum ProcessResult {
    /// The file was sent; `url` is the link to the stored object.
    Uploaded { filename: String, size: String, url: String },
    /// The stored object was identical, and nothing was sent.
    Skipped { filename: String, size: String, url: String },
    Failed { filename: String, error: String },
    /// A link was made for an object that the store holds.
    UrlGenerated { filename: String, url: String },
    /// No link was made: the store holds no such object.
    NotFound { filename: String },
}

/// What a [`ProcessResult`] holds.
pub enum ResultView {
    Uploaded { filename: Seq<char>, size: Seq<char>, url: Seq<char> },
    Skipped { filename: Seq<char>, size: Seq<char>, url: Seq<char> },
    Failed { filename: Seq<char>, error: Seq<char> },
    UrlGenerated { filename: Seq<char>, url: Seq<char> },
    NotFound { filename: Seq<char> },
}

impl View for ProcessResult {
    type V = ResultView;

    open spec fn view(&self) -> ResultView {
        match *self {
            ProcessResult::Uploaded { filename, size, url } => ResultView::Uploaded {
                filename: filename@,
                size: size@,
                url: url@,
            },
            ProcessResult::Skipped { filename, size, url } => ResultView::Skipped {
                filename: filename@,
                size: size@,
                url: url@,
            },
            ProcessResult::Failed { filename, error } => ResultView::Failed {
                filename: filename@,
                error: error@,
            },
            ProcessResult::UrlGenerated { filename, url } => ResultView::UrlGenerated {
                filename: filename@,
                url: url@,
            },
            ProcessResult::NotFound { filename } => ResultView::NotFound { filename: filename@ },
        }
    }
}

/// The kind of an outcome.
#[derive(Debug, Clone, Copy, PartialEq, Eq, Structural)]
pub enum Outcome {
    Uploaded,
    Skipped,
    Failed,
    UrlGenerated,
    NotFound,
}

impl ProcessResult {
    /// The kind of the outcome.
    pub open spec fn outcome(&self) -> Outcome {
        match *self {
            ProcessResult::Uploaded { .. } => Outcome::Uploaded,
            ProcessResult::Skipped { .. } => Outcome::Skipped,
            ProcessResult::Failed { .. } => Outcome::Failed,
            ProcessResult::UrlGenerated { .. } => Outcome::UrlGenerated,
            ProcessResult::NotFound { .. } => Outcome::NotFound,
        }
    }

    /// The name of the file that the outcome is for.
    pub open spec fn name(&self) -> Seq<char> {
        match *self {
            ProcessResult::Uploaded { filename, .. } => filename@,
            ProcessResult::Skipped { filename, .. } => filename@,
            ProcessResult::Failed { filename, .. } => filename@,
            ProcessResult::UrlGenerated { filename, .. } => filename@,
            ProcessResult::NotFound { filename } => filename@,
        }
    }

    /// The kind of the outcome.
    pub fn kind(&self) -> (kind: Outcome)
        ensures
            kind == self.outcome(),
    {
        match self {
            ProcessResult::Uploaded { .. } => Outcome::Uploaded,
            ProcessResult::Skipped { .. } => Outcome::Skipped,
            ProcessResult::Failed { .. } => Outcome::Failed,
            ProcessResult::UrlGenerated { .. } => Outcome::UrlGenerated,
            ProcessResult::NotFound { .. } => Outcome::NotFound,
        }
    }

    /// The name of the file that the outcome is for.
    pub fn filename(&self) -> (filename: &String)
        ensures
            filename@ == self.name(),
    {
        match self {
            ProcessResult::Uploaded { filename, .. } => filename,
            ProcessResult::Skipped { filename, .. } => filename,
            ProcessResult::Failed { filename, .. } => filename,
            ProcessResult::UrlGenerated { filename, .. } => filename,
            ProcessResult::NotFound { filename } => filename,
        }
    }
}

/// The counters of one run. Each of them counts up and is never set back.
#[derive(Debug, Clone, Copy, PartialEq, Eq, Structural)]
pub struct Stats {
    pub uploaded: u64,
    pub skipped: u64,
    pub failed: u64,
    pub urls_generated: u64,
    pub not_found: u64,
    pub total_bytes_uploaded: u64,
}

/// The counters after an outcome of `kind` is counted; an upload adds `bytes`
/// to the bytes sent.
pub open spec fn counted(stats: Stats, kind: Outcome, bytes: u64) -> Stats {
    match kind {
        Outcome::Uploaded => Stats {
            uploaded: (stats.uploaded + 1) as u64,
            total_bytes_uploaded: (stats.total_bytes_uploaded + bytes) as u64,
            ..stats
        },
        Outcome::Skipped => Stats { skipped: (stats.skipped + 1) as u64, ..stats },
        Outcome::Failed => Stats { failed: (stats.failed + 1) as u64, ..stats },
        Outcome::UrlGenerated => Stats {
            urls_generated: (stats.urls_generated + 1) as u64,
            ..stats
        },
        Outcome::NotFound => Stats { not_found: (stats.not_found + 1) as u64, ..stats },
    }
}

/// The counter that an outcome of `kind` raises has room for it, and so have
/// the bytes sent.
pub open spec fn has_room(stats: Stats, kind: Outcome, bytes: u64) -> bool {
    match kind {
        Outcome::Uploaded => stats.uploaded < u64::MAX && stats.total_bytes_uploaded + bytes
            <= u64::MAX,
        Outcome::Skipped => stats.skipped < u64::MAX,
        Outcome::Failed => stats.failed < u64::MAX,
        Outcome::UrlGenerated => stats.urls_generated < u64::MAX,
        Outcome::NotFound => stats.not_found < u64::MAX,
    }
}

/// No counter of `later` is below that of `earlier`.
pub open spec fn not_below(later: Stats, earlier: Stats) -> bool {
    &&& later.uploaded >= earlier.uploaded
    &&& later.skipped >= earlier.skipped
    &&& later.failed >= earlier.failed
    &&& later.urls_generated >= earlier.urls_generated
    &&& later.not_found >= earlier.not_found
    &&& later.total_bytes_uploaded >= earlier.total_bytes_uploaded
}

/// Number of outcomes counted.
pub open spec fn outcomes_counted(stats: Stats) -> nat {
    (stats.uploaded + stats.skipped + stats.failed + stats.urls_generated + stats.not_found) as nat
}

/// The first line of the upload summary.
pub open spec fn upload_summary_text(stats: Stats) -> Seq<char> {
    "Summary: "@ + decimal(stats.uploaded as nat) + " uploaded, "@ + decimal(stats.skipped as nat)
        + " skipped, "@ + decimal(stats.failed as nat) + " failed"@
}

/// The line on the bytes sent.
pub open spec fn bytes_summary_text(stats: Stats) -> Seq<char> {
    "Total uploaded: "@ + size_text(stats.total_bytes_uploaded) + " ("@ + decimal(
        stats.total_bytes_uploaded as nat,
    ) + " bytes)"@
}

/// The summary of a run that only made links.
pub open spec fn url_summary_text(stats: Stats) -> Seq<char> {
    "Summary: "@ + decimal(stats.urls_generated as nat) + " URL(s) generated, "@ + decimal(
        stats.not_found as nat,
    ) + " not found"@
}

impl Stats {
    /// The counters at the start of a run.
    pub fn new() -> (stats: Self)
        ensures
            stats == (Stats {
                uploaded: 0,
                skipped: 0,
                failed: 0,
                urls_generated: 0,
                not_found: 0,
                total_bytes_uploaded: 0,
            }),
    {
        Stats {
            uploaded: 0,
            skipped: 0,
            failed: 0,
            urls_generated: 0,
            not_found: 0,
            total_bytes_uploaded: 0,
        }
    }

    /// Counts one outcome of `kind`; for an upload, `bytes` is the size of the
    /// file sent. One counter rises by one, and none falls.
    pub fn record(&mut self, kind: Outcome, bytes: u64)
        requires
            has_room(*old(self), kind, bytes),
        ensures
            *final(self) == counted(*old(self), kind, bytes),
            not_below(*final(self), *old(self)),
            outcomes_counted(*final(self)) == outcomes_counted(*old(self)) + 1,
    {
        match kind {
            Outcome::Uploaded => {
                self.uploaded = self.uploaded + 1;
                self.total_bytes_uploaded = self.total_bytes_uploaded + bytes;
            },
            Outcome::Skipped => {
                self.skipped = self.skipped + 1;
            },
            Outcome::Failed => {
                self.failed = self.failed + 1;
            },
            Outcome::UrlGenerated => {
                self.urls_generated = self.urls_generated + 1;
            },
            Outcome::NotFound => {
                self.not_found = self.not_found + 1;
            },
        }
    }

    /// Whether [`Self::record`] may be called for an outcome of `kind`.
    pub fn can_record(&self, kind: Outcome, bytes: u64) -> (room: bool)
        ensures
            room == has_room(*self, kind, bytes),
    {
        match kind {
            Outcome::Uploaded => self.uploaded < u64::MAX && bytes <= u64::MAX
                - self.total_bytes_uploaded,
            Outcome::Skipped => self.skipped < u64::MAX,
            Outcome::Failed => self.failed < u64::MAX,
            Outcome::UrlGenerated => self.urls_generated < u64::MAX,
            Outcome::NotFound => self.not_found < u64::MAX,
        }
    }

    /// The first line of the upload summary.
    pub fn upload_summary(&self) -> (line: String)
        ensures
            line@ == upload_summary_text(*self),
    {
        let mut out: Vec<char> = Vec::new();
        push_str(&mut out, "Summary: ");
        push_decimal(&mut out, self.uploaded);
        push_str(&mut out, " uploaded, ");
        push_decimal(&mut out, self.skipped);
        push_str(&mut out, " skipped, ");
        push_decimal(&mut out, self.failed);
        push_str(&mut out, " failed");
        assert(Seq::<char>::empty() + upload_summary_text(*self) =~= upload_summary_text(*self));
        string_of(&out)
    }

    /// The line on the bytes sent; there is none where nothing was sent.
    pub fn bytes_summary(&self) -> (line: Option<String>)
        ensures
            self.total_bytes_uploaded == 0 ==> line is None,
            self.total_bytes_uploaded > 0 ==> (line matches Some(text) && text@
                == bytes_summary_text(*self)),
    {
        if self.total_bytes_uploaded == 0 {
            return None;
        }
        let mut out: Vec<char> = Vec::new();
        push_str(&mut out, "Total uploaded: ");
        let size = format_size(self.total_bytes_uploaded);
        push_str(&mut out, size.as_str());
        push_str(&mut out, " (");
        push_decimal(&mut out, self.total_bytes_uploaded);
        push_str(&mut out, " bytes)");
        assert(Seq::<char>::empty() + bytes_summary_text(*self) =~= bytes_summary_text(*self));
        Some(string_of(&out))
    }

    /// The summary of a run that only made links.
    pub fn url_summary(&self) -> (line: String)
        ensures
            line@ == url_summary_text(*self),
    {
        let mut out: Vec<char> = Vec::new();
        push_str(&mut out, "Summary: ");
        push_decimal(&mut out, self.urls_generated);
        push_str(&mut out, " URL(s) generated, ");
        push_decimal(&mut out, self.not_found);
        push_str(&mut out, " not found");
        assert(Seq::<char>::empty() + url_summary_text(*self) =~= url_summary_text(*self));
        string_of(&out)
    }
}

/// The outcomes stand in the order of their files' names.
pub open spec fn sorted_by_name(results: Seq<ProcessResult>) -> bool {
    forall|i: int, j: int|
        0 <= i < j < results.len() ==> lex_le(#[trigger] results[i].name(), #[trigger] results[j].name())
}

/// Whether the file of `a` stands before that of `b` in the order of names,
/// or has the same name.
fn name_precedes(a: &ProcessResult, b: &ProcessResult) -> (le: bool)
    ensures
        le == lex_le(a.name(), b.name()),
{
    let first = chars_of(a.filename().as_str());
    let second = chars_of(b.filename().as_str());
    precedes(&first, &second)
}

/// Puts the outcomes in the order of their files' names, whatever the order
/// in which the workers finished. Nothing is added and nothing is lost.
pub fn sort_results(results: &mut Vec<ProcessResult>)
    ensures
        sorted_by_name(final(results)@),
        final(results)@.to_multiset() == old(results)@.to_multiset(),
        final(results)@.len() == old(results)@.len(),
{
    let mut i: usize = 0;
    while i < results.len()
        invariant
            i <= results.len(),
            sorted_by_name(results@.take(i as int)),
            results@.to_multiset() == old(results)@.to_multiset(),
            results@.len() == old(results)@.len(),
        decreases results.len() - i,
    {
        let ghost before = results@;
        let moved = results.remove(i);
        let ghost without = results@;
        proof {
            to_multiset_remove(before, i as int);
            assert(without.take(i as int) == before.take(i as int));
        }
        let mut at: usize = i;
        while at > 0 && !name_precedes(&results[at - 1], &moved)
            invariant
                at <= i,
                i <= results.len(),
                results@ == without,
                forall|k: int| at <= k < i ==> lex_le(moved.name(), (#[trigger] without[k]).name()),
            decreases at,
        {
            proof {
                lemma_lex_total(without[at - 1].name(), moved.name());
            }
            at -= 1;
        }
        results.insert(at, moved);
        proof {
            to_multiset_insert(without, at as int, moved);
            let after = results@;
            assert(after.to_multiset() == before.to_multiset()) by {
                broadcast use vstd::multiset::group_multiset_axioms;

                before.to_multiset_ensures();
                assert(before.to_multiset().count(before[i as int]) > 0);
                assert(without.to_multiset().insert(moved) =~= before.to_multiset());
            }
            assert forall|a: int, b: int| 0 <= a < b < i + 1 implies lex_le(
                #[trigger] after.take(i + 1)[a].name(),
                #[trigger] after.take(i + 1)[b].name(),
            ) by {
                let low = if a < at {
                    a
                } else {
                    a - 1
                };
                let high = if b < at {
                    b
                } else {
                    b - 1
                };
                if a == at {
                    assert(after[b] == without[b - 1]);
                } else if b == at {
                    assert(after[a] == without[a]);
                    assert(lex_le(without[at - 1].name(), moved.name()));
                    if a < at - 1 {
                        assert(before.take(i as int)[a] == without[a]);
                        assert(before.take(i as int)[at - 1] == without[at - 1]);
                        lemma_lex_transitive(
                            without[a].name(),
                            without[at - 1].name(),
                            moved.name(),
                        );
                    }
                } else {
                    assert(after[a] == without[low]);
                    assert(after[b] == without[high]);
                    assert(before.take(i as int)[low] == without[low]);
                    assert(before.take(i as int)[high] == without[high]);
                }
            }
        }
        i += 1;
    }
    assert(results@.take(results@.len() as int) == results@);
}

/// The name of the file that an outcome is for.
pub open spec fn view_name(result: ResultView) -> Seq<char> {
    match result {
        ResultView::Uploaded { filename, .. } => filename,
        ResultView::Skipped { filename, .. } => filename,
        ResultView::Failed { filename, .. } => filename,
        ResultView::UrlGenerated { filename, .. } => filename,
        ResultView::NotFound { filename } => filename,
    }
}

/// What the outcomes of `results` hold.
pub open spec fn result_views(results: Seq<ProcessResult>) -> Seq<ResultView> {
    Seq::new(results.len(), |i: int| results[i]@)
}

/// The names of `files` as texts.
pub open spec fn names_of(files: Seq<String>) -> Seq<Seq<char>> {
    Seq::new(files.len(), |i: int| files[i]@)
}

/// There is an outcome for the file called `name`.
pub open spec fn has_outcome(results: Seq<ResultView>, name: Seq<char>) -> bool {
    exists|i: int| 0 <= i < results.len() && view_name(#[trigger] results[i]) == name
}

/// What is reported of a file whose worker ended without an outcome for it.
pub open spec fn lost_text() -> Seq<char> {
    "worker ended before reporting an outcome"@
}

/// The outcomes with one added for every file that has none: such a file
/// counts as failed. The files are taken in their order.
pub open spec fn accounted(files: Seq<Seq<char>>, results: Seq<ResultView>) -> Seq<ResultView>
    decreases files.len(),
{
    if files.len() == 0 {
        results
    } else {
        let before = accounted(files.drop_last(), results);
        if has_outcome(before, files.last()) {
            before
        } else {
            before.push(ResultView::Failed { filename: files.last(), error: lost_text() })
        }
    }
}

/// After the accounting every file has an outcome, and the outcomes that
/// were there stand unchanged at the front.
pub proof fn lemma_accounted_covers(files: Seq<Seq<char>>, results: Seq<ResultView>)
    ensures
        forall|k: int| 0 <= k < files.len() ==> has_outcome(accounted(files, results), #[trigger] files[k]),
        accounted(files, results).len() >= results.len(),
        accounted(files, results).take(results.len() as int) == results,
    decreases files.len(),
{
    if files.len() > 0 {
        let rest = files.drop_last();
        let before = accounted(rest, results);
        let after = accounted(files, results);
        lemma_accounted_covers(rest, results);
        assert(after.take(results.len() as int) == before.take(results.len() as int));
        assert forall|k: int| 0 <= k < files.len() implies has_outcome(after, #[trigger] files[k]) by {
            if k < files.len() - 1 {
                assert(rest[k] == files[k]);
                let i = choose|i: int|
                    0 <= i < before.len() && view_name(#[trigger] before[i]) == files[k];
                assert(view_name(after[i]) == files[k]);
            } else if has_outcome(before, files.last()) {
            } else {
                assert(view_name(after[after.len() - 1]) == files.last());
            }
        }
    }
}

fn has_outcome_for(results: &Vec<ProcessResult>, name: &str) -> (found: bool)
    ensures
        found == has_outcome(result_views(results@), name@),
{
    let mut i: usize = 0;
    while i < results.len()
        invariant
            i <= results.len(),
            forall|k: int| 0 <= k < i ==> view_name(#[trigger] result_views(results@)[k]) != name@,
        decreases results.len() - i,
    {
        assert(result_views(results@)[i as int] == results@[i as int]@);
        if is_text(&chars_of(results[i].filename().as_str()), name) {
            return true;
        }
        i += 1;
    }
    false
}

/// Sees to it that no file of the run is left without an outcome: a file for
/// which no worker reported one is added as failed, so that a worker that
/// ended early does not make its file vanish from the report.
pub fn account_for(files: &Vec<String>, results: &mut Vec<ProcessResult>)
    ensures
        result_views(final(results)@) == accounted(names_of(files@), result_views(old(results)@)),
{
    let mut i: usize = 0;
    assert(names_of(files@).take(0) == Seq::<Seq<char>>::empty());
    while i < files.len()
        invariant
            i <= files.len(),
            result_views(results@) == accounted(
                names_of(files@).take(i as int),
                result_views(old(results)@),
            ),
        decreases files.len() - i,
    {
        let ghost before = result_views(results@);
        assert(names_of(files@).take(i + 1).drop_last() == names_of(files@).take(i as int));
        assert(names_of(files@).take(i + 1).last() == files@[i as int]@);
        if !has_outcome_for(results, files[i].as_str()) {
            let mut reason: Vec<char> = Vec::new();
            push_str(&mut reason, "worker ended before reporting an outcome");
            results.push(
                ProcessResult::Failed { filename: files[i].clone(), error: string_of(&reason) },
            );
            assert(result_views(results@) == before.push(
                ResultView::Failed { filename: files@[i as int]@, error: lost_text() },
            ));
        }
        i += 1;
    }
    assert(names_of(files@).take(files@.len() as int) == names_of(files@));
}

} // verus!
