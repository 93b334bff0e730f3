//! The fetch pipeline: which request to make for an identifier, how often to
//! repeat it, how the work-list is cut into batches and what the journal
//! receives after each batch.
//!
//! Nothing here touches the network. A caller makes the request that a
//! `Download` names, hands back what came of it, and repeats this until the
//! download has an outcome. When every download of a batch has one, the
//! `Pipeline` gives the lines to append to the journal and moves on.

use crate::batch::{
    advanced, after_batches, batch_of, batches_of, lemma_batches_cover, lemma_run_finishes, Batches,
    BatchesModel,
};
use crate::journal::{
    build_set, deduplicate, distinct, key_of, keys_of, known_of, lemma_distinct,
    lemma_key_of_plain, lemma_keys_of_add, lemma_pending_contains, pending, remaining,
    retain_known,
};
use crate::local::{
    archive_path, archive_path_of, repackage_arxiv_download, start_of, Repackaging,
};
use crate::pattern::{match_two_groups, regex_groups, two_groups};
use crate::text::{chars_of, joined, string_of_range};
use crate::MAX_ATTEMPTS;
use vstd::prelude::*;
use vstd::string::StringExecFns;

verus! {

/// Width of the worker pool where nothing else is configured.
pub const NUM_THREADS: usize = 4;

/// Path of the journal of finished downloads where nothing else is
/// configured.
pub const RESUME_LOG_FILEPATH: &'static str = "already_updated.log";

/// Address under which the source bundle of an identifier is fetched: the
/// identifier follows it.
pub const E_PRINT_URL: &'static str = "https://export.arxiv.org/e-print/";

/// Number of identifiers after which a progress report is due.
pub const PROGRESS_EVERY: usize = 100;

/// Pattern of an old-style identifier: a category, one slash, a number.
pub const SLASH_PATTERN: &'static str = "^([^/]+)/([^/]+)$";

/// The work-list of a run: the entries of `all` that are identifiers, that
/// `local` holds where the run is restricted to what is locally known, and
/// that the journal does not record, each of them once, in the order of
/// `all`.
pub open spec fn work_of(
    all: Seq<Seq<char>>,
    local: Option<Seq<Seq<char>>>,
    journal: Seq<Seq<char>>,
) -> Seq<Seq<char>> {
    let known = match local {
        Some(ids) => known_of(all, keys_of(ids)),
        None => all,
    };
    distinct(pending(known, keys_of(journal)))
}

/// The work-list of a run over the identifiers `all_ids`, restricted to
/// the locally known identifiers `local_ids` where they are given, with the
/// journal `already_updated` taken into account.
pub fn ids_to_update(
    all_ids: &Vec<String>,
    local_ids: Option<&Vec<String>>,
    already_updated: &Vec<String>,
) -> (work: Vec<String>)
    ensures
        work.deep_view() == work_of(
            all_ids.deep_view(),
            match local_ids {
                Some(ids) => Some(ids.deep_view()),
                None => None,
            },
            already_updated.deep_view(),
        ),
{
    let done = build_set(already_updated);
    match local_ids {
        Some(ids) => {
            let known = retain_known(all_ids, &build_set(ids));
            deduplicate(&remaining(&known, &done))
        },
        None => deduplicate(&remaining(all_ids, &done)),
    }
}

/// Resumption: the work-list of a run holds no identifier that the journal
/// records, and none twice, whatever it was made of.
pub proof fn lemma_work_is_fresh(
    all: Seq<Seq<char>>,
    local: Option<Seq<Seq<char>>>,
    journal: Seq<Seq<char>>,
)
    ensures
        work_of(all, local, journal).no_duplicates(),
        forall|id: Seq<char>|
            keys_of(journal).contains(id) ==> !work_of(all, local, journal).contains(id),
        forall|id: Seq<char>| work_of(all, local, journal).contains(id) ==> all.contains(id),
{
    let known = match local {
        Some(ids) => known_of(all, keys_of(ids)),
        None => all,
    };
    let left = pending(known, keys_of(journal));
    let work = work_of(all, local, journal);
    lemma_distinct(left);
    assert forall|id: Seq<char>| keys_of(journal).contains(id) implies !work.contains(id) by {
        lemma_pending_contains(known, keys_of(journal), id);
    }
    assert forall|id: Seq<char>| work.contains(id) implies all.contains(id) by {
        lemma_pending_contains(known, keys_of(journal), id);
        if local is Some {
            let allowed = keys_of(local->0);
            let keep = |x: Seq<char>| allowed.contains(x);
            assert(known == all.filter(keep));
            all.lemma_filter_contains_rev(keep, id);
        }
    }
}

/// What one download attempt brought.
#[derive(Clone, Debug, PartialEq, Eq)]
pub enum Reply {
    /// The service answered with `status`. `body` holds the payload where it
    /// was read; it is `None` where it was not asked for or could not be
    /// read.
    Response { status: u16, body: Option<Vec<u8>> },
    /// No answer arrived: the connection failed or the request timed out.
    NoResponse,
}

/// How the download of one identifier ended.
#[derive(Clone, Copy, Debug, PartialEq, Eq, Structural)]
pub enum Outcome {
    /// A payload arrived; it goes to the archive normalizer.
    Fetched,
    /// The service answered with success and an empty payload. A repetition
    /// would bring the same, so none is made.
    EmptyBody,
    /// The service denied access to this article (status 403), which is a
    /// permanent skip.
    Denied,
    /// Every attempt failed in a way that a repetition might have mended.
    Exhausted,
}

/// What follows from one reply.
#[derive(Clone, Copy, Debug, PartialEq, Eq, Structural)]
pub enum Verdict {
    /// The download is over, with this outcome.
    Finish(Outcome),
    /// The attempt is spent; another may follow.
    Retry,
}

/// The verdict on a reply: success with a payload is fetched, success with
/// an empty payload and a denial are final, everything else may be tried
/// again.
pub open spec fn verdict_of(reply: Reply) -> Verdict {
    match reply {
        Reply::Response { status, body } => if status == 200 {
            match body {
                Some(bytes) => if bytes@.len() > 0 {
                    Verdict::Finish(Outcome::Fetched)
                } else {
                    Verdict::Finish(Outcome::EmptyBody)
                },
                None => Verdict::Retry,
            }
        } else if status == 403 {
            Verdict::Finish(Outcome::Denied)
        } else {
            Verdict::Retry
        },
        Reply::NoResponse => Verdict::Retry,
    }
}

/// The verdict on `reply`.
pub fn judge(reply: &Reply) -> (verdict: Verdict)
    ensures
        verdict == verdict_of(*reply),
{
    match reply {
        Reply::Response { status, body } => {
            if *status == 200 {
                match body {
                    Some(bytes) => {
                        if bytes.len() > 0 {
                            Verdict::Finish(Outcome::Fetched)
                        } else {
                            Verdict::Finish(Outcome::EmptyBody)
                        }
                    },
                    None => Verdict::Retry,
                }
            } else if *status == 403 {
                Verdict::Finish(Outcome::Denied)
            } else {
                Verdict::Retry
            }
        },
        Reply::NoResponse => Verdict::Retry,
    }
}

/// The state of one download, as contracts see it.
pub struct DownloadModel {
    /// The identifier that is fetched.
    pub id: Seq<char>,
    /// Attempts spent so far.
    pub attempts: nat,
    /// The outcome, once there is one.
    pub outcome: Option<Outcome>,
}

/// A download that has spent no attempt yet.
pub open spec fn fresh_download(id: Seq<char>) -> DownloadModel {
    DownloadModel { id, attempts: 0, outcome: None }
}

/// The state after one more reply. A reply to a finished download changes
/// nothing. Every other reply spends an attempt; a retry on the last
/// attempt exhausts the download.
pub open spec fn after_reply(d: DownloadModel, reply: Reply) -> DownloadModel {
    if d.outcome is Some {
        d
    } else {
        DownloadModel {
            id: d.id,
            attempts: d.attempts + 1,
            outcome: match verdict_of(reply) {
                Verdict::Finish(outcome) => Some(outcome),
                Verdict::Retry => if d.attempts + 1 >= MAX_ATTEMPTS {
                    Some(Outcome::Exhausted)
                } else {
                    None
                },
            },
        }
    }
}

/// The state after a sequence of replies, the first of them first.
pub open spec fn after_replies(d: DownloadModel, replies: Seq<Reply>) -> DownloadModel
    decreases replies.len(),
{
    if replies.len() == 0 {
        d
    } else {
        after_reply(after_replies(d, replies.drop_last()), replies.last())
    }
}

/// One identifier on its way through the retry policy.
#[derive(Debug)]
pub struct Download {
    id: String,
    attempts: u8,
    outcome: Option<Outcome>,
}

impl View for Download {
    type V = DownloadModel;

    closed spec fn view(&self) -> DownloadModel {
        DownloadModel { id: self.id@, attempts: self.attempts as nat, outcome: self.outcome }
    }
}

impl Download {
    #[verifier::type_invariant]
    spec fn within_budget(self) -> bool {
        if self.outcome is None {
            self.attempts < MAX_ATTEMPTS
        } else {
            self.attempts <= MAX_ATTEMPTS
        }
    }

    /// A download of `id` that has spent no attempt.
    pub fn new(id: String) -> (d: Download)
        ensures
            d@ == fresh_download(id@),
    {
        Download { id, attempts: 0, outcome: None }
    }

    /// The identifier that is fetched.
    pub fn id(&self) -> (id: &str)
        ensures
            id@ == self@.id,
    {
        self.id.as_str()
    }

    /// Attempts spent so far.
    pub fn attempts(&self) -> (n: u8)
        ensures
            n == self@.attempts,
            n <= MAX_ATTEMPTS,
    {
        proof {
            use_type_invariant(self);
        }
        self.attempts
    }

    /// The outcome, once there is one.
    pub fn outcome(&self) -> (outcome: Option<Outcome>)
        ensures
            outcome == self@.outcome,
    {
        self.outcome
    }

    /// The address to request next, or `None` when the download is over.
    pub fn request(&self) -> (url: Option<String>)
        ensures
            match url {
                Some(url) => self@.outcome is None && url@ == E_PRINT_URL@ + self@.id,
                None => self@.outcome is Some,
            },
    {
        match self.outcome {
            None => Some(joined(E_PRINT_URL, self.id.as_str())),
            Some(_) => None,
        }
    }

    /// Takes in the reply to the request last named.
    pub fn record(self, reply: &Reply) -> (next: Download)
        ensures
            next@ == after_reply(self@, *reply),
    {
        proof {
            use_type_invariant(&self);
        }
        match self.outcome {
            Some(_) => self,
            None => {
                let attempts: u8 = self.attempts + 1;
                let outcome = match judge(reply) {
                    Verdict::Finish(outcome) => Some(outcome),
                    Verdict::Retry => if attempts >= MAX_ATTEMPTS {
                        Some(Outcome::Exhausted)
                    } else {
                        None
                    },
                };
                Download { id: self.id, attempts, outcome }
            },
        }
    }
}

/// The budget bounds every download: it never spends more than
/// `MAX_ATTEMPTS` attempts, and the attempts it has spent are the replies it
/// took in while it was unfinished.
pub proof fn lemma_attempts_bounded(id: Seq<char>, replies: Seq<Reply>)
    ensures
        after_replies(fresh_download(id), replies).attempts <= MAX_ATTEMPTS,
        after_replies(fresh_download(id), replies).attempts <= replies.len(),
        after_replies(fresh_download(id), replies).id == id,
        after_replies(fresh_download(id), replies).outcome is None ==> after_replies(
            fresh_download(id),
            replies,
        ).attempts == replies.len() && replies.len() < MAX_ATTEMPTS,
    decreases replies.len(),
{
    if replies.len() > 0 {
        lemma_attempts_bounded(id, replies.drop_last());
    }
}

/// Forward progress: whatever the replies are, a download is over once it
/// has taken in `MAX_ATTEMPTS` of them.
pub proof fn lemma_download_ends(id: Seq<char>, replies: Seq<Reply>)
    requires
        replies.len() >= MAX_ATTEMPTS,
    ensures
        after_replies(fresh_download(id), replies).outcome is Some,
{
    lemma_attempts_bounded(id, replies);
}

/// A download whose replies all ask for a retry is exhausted by the last of
/// `MAX_ATTEMPTS` replies and not before.
pub proof fn lemma_exhaustion(id: Seq<char>, replies: Seq<Reply>)
    requires
        forall|i: int|
            0 <= i < replies.len() ==> verdict_of(#[trigger] replies[i]) == Verdict::Retry,
    ensures
        after_replies(fresh_download(id), replies).outcome == if replies.len() >= MAX_ATTEMPTS {
            Some(Outcome::Exhausted)
        } else {
            None::<Outcome>
        },
    decreases replies.len(),
{
    if replies.len() > 0 {
        let front = replies.drop_last();
        assert forall|i: int| 0 <= i < front.len() implies verdict_of(#[trigger] front[i])
            == Verdict::Retry by {
            assert(front[i] == replies[i]);
        }
        lemma_exhaustion(id, front);
        lemma_attempts_bounded(id, front);
        assert(verdict_of(replies[replies.len() - 1]) == Verdict::Retry);
    }
}

/// A download that is retried `failures` times, with fewer failures than
/// the budget holds, and then gets a final verdict, ends with the outcome of
/// that verdict.
pub proof fn lemma_finish_after_retries(id: Seq<char>, failures: Seq<Reply>, last: Reply)
    requires
        failures.len() < MAX_ATTEMPTS,
        forall|i: int| 0 <= i < failures.len() ==> verdict_of(#[trigger] failures[i])
            == Verdict::Retry,
        verdict_of(last) is Finish,
    ensures
        after_replies(fresh_download(id), failures.push(last)).outcome == Some(
            verdict_of(last)->Finish_0,
        ),
{
    lemma_exhaustion(id, failures);
    assert(failures.push(last).drop_last() == failures);
}

/// Where the canonical archive of an article is stored.
#[derive(Clone, Debug, PartialEq, Eq)]
pub struct StorageLocation {
    /// Directory that receives the archive: the corpus root and, below it,
    /// the bucket named by the first four characters of the identifier's
    /// number.
    pub to_dir: String,
    /// Name of the archive without its extension: the identifier, with
    /// category and number joined where it has a category.
    pub base_name: String,
}

/// The storage location as contracts see it.
pub struct LocationModel {
    pub to_dir: Seq<char>,
    pub base_name: Seq<char>,
}

impl View for StorageLocation {
    type V = LocationModel;

    open spec fn view(&self) -> LocationModel {
        LocationModel { to_dir: self.to_dir@, base_name: self.base_name@ }
    }
}

/// The number of an identifier: what follows the slash where `parts` splits
/// it into category and number, the identifier itself where it is not split.
pub open spec fn number_part_of(
    id: Seq<char>,
    parts: Option<(Seq<char>, Seq<char>)>,
) -> Seq<char> {
    match parts {
        Some((category, number)) => number,
        None => id,
    }
}

/// The base name of an identifier: category and number without the slash
/// between them, or the identifier itself where it is not split.
pub open spec fn base_name_of(id: Seq<char>, parts: Option<(Seq<char>, Seq<char>)>) -> Seq<char> {
    match parts {
        Some((category, number)) => category + number,
        None => id,
    }
}

/// The storage location below `root` of the identifier `id`, which `parts`
/// splits into category and number or leaves whole. There is none where the
/// number has fewer than four characters, and so names no bucket.
pub open spec fn location_of(
    root: Seq<char>,
    id: Seq<char>,
    parts: Option<(Seq<char>, Seq<char>)>,
) -> Option<LocationModel> {
    if number_part_of(id, parts).len() < 4 {
        None
    } else {
        Some(
            LocationModel {
                to_dir: root + seq!['/'] + number_part_of(id, parts).take(4),
                base_name: base_name_of(id, parts),
            },
        )
    }
}

/// The storage location below `root` of `id`, given the category and number
/// that it was split into, if it was.
pub fn locate(root: &str, id: &str, parts: Option<(String, String)>) -> (location: Option<
    StorageLocation,
>)
    ensures
        location.is_some() == location_of(root@, id@, parts.deep_view()).is_some(),
        location matches Some(l) ==> l@ == location_of(root@, id@, parts.deep_view())->0,
{
    let ghost model = parts.deep_view();
    let (number, base_name) = match parts {
        Some((category, number)) => {
            let base_name = joined(category.as_str(), number.as_str());
            (number, base_name)
        },
        None => (String::from_str(id), String::from_str(id)),
    };
    assert(number@ == number_part_of(id@, model));
    assert(base_name@ == base_name_of(id@, model));
    let digits = chars_of(number.as_str());
    if digits.len() < 4 {
        return None;
    }
    let bucket = string_of_range(&digits, 0, 4);
    let mut to_dir = String::from_str(root);
    to_dir.push('/');
    to_dir.append(bucket.as_str());
    assert(digits@.subrange(0, 4) == digits@.take(4));
    assert(to_dir@ == root@ + seq!['/'] + number@.take(4));
    Some(StorageLocation { to_dir, base_name })
}

/// The storage location below `root` of `id`. An identifier that
/// `SLASH_PATTERN` matches is split into its category and its number.
pub fn storage_location(root: &str, id: &str) -> (location: Option<StorageLocation>)
    ensures
        location.is_some() == location_of(
            root@,
            id@,
            two_groups(regex_groups(SLASH_PATTERN@, id@)),
        ).is_some(),
        location matches Some(l) ==> l@ == location_of(
            root@,
            id@,
            two_groups(regex_groups(SLASH_PATTERN@, id@)),
        )->0,
{
    locate(root, id, match_two_groups(SLASH_PATTERN, id))
}

/// Hands the payload of the article `id` to the archive normalizer: the
/// normalization starts for the storage location of `id` below
/// `corpus_root`. An identifier without storage location gets none.
pub fn hand_off(corpus_root: &str, id: &str, payload: &[u8]) -> (state: Option<Repackaging>)
    ensures
        match location_of(corpus_root@, id@, two_groups(regex_groups(SLASH_PATTERN@, id@))) {
            Some(location) => state matches Some(s) && s@ == start_of(
                payload@,
                location.to_dir,
                location.base_name,
            ),
            None => state is None,
        },
{
    match storage_location(corpus_root, id) {
        Some(location) => Some(
            repackage_arxiv_download(payload, location.to_dir, location.base_name),
        ),
        None => None,
    }
}

impl StorageLocation {
    /// The path of the canonical archive at this location.
    pub fn archive_path(&self) -> (path: String)
        ensures
            path@ == archive_path_of(self@.to_dir, self@.base_name),
    {
        archive_path(self.to_dir.as_str(), self.base_name.as_str())
    }
}

/// A pipeline run as contracts see it.
pub struct PipelineModel {
    /// The work-list of the run and the place reached in it.
    pub batches: BatchesModel,
    /// Whether an identifier that exhausted its attempts is journaled like
    /// the others.
    pub record_exhausted: bool,
    /// Seconds to wait after each batch.
    pub delay_secs: nat,
}

/// A pipeline run before its first batch.
pub open spec fn pipeline_of(
    work: Seq<Seq<char>>,
    width: nat,
    record_exhausted: bool,
    delay_secs: nat,
) -> PipelineModel {
    PipelineModel { batches: batches_of(work, width), record_exhausted, delay_secs }
}

/// Whether an identifier with this outcome goes into the journal.
pub open spec fn is_recorded(outcome: Outcome, record_exhausted: bool) -> bool {
    record_exhausted || outcome != Outcome::Exhausted
}

/// The identifiers of `batch` that go into the journal, in their order,
/// where `outcomes` holds the outcome of each.
pub open spec fn recorded(
    batch: Seq<Seq<char>>,
    outcomes: Seq<Outcome>,
    record_exhausted: bool,
) -> Seq<Seq<char>>
    recommends
        batch.len() == outcomes.len(),
    decreases batch.len(),
{
    if batch.len() == 0 {
        batch
    } else {
        let front = recorded(batch.drop_last(), outcomes.drop_last(), record_exhausted);
        if is_recorded(outcomes.last(), record_exhausted) {
            front.push(batch.last())
        } else {
            front
        }
    }
}

/// What is to be done when a batch is closed.
#[derive(Clone, Debug, PartialEq, Eq)]
pub struct Closed {
    /// The lines to append to the journal, in this order.
    pub lines: Vec<String>,
    /// Seconds to wait before the next batch.
    pub pause_secs: u64,
    /// How many identifiers the run has been through.
    pub updated: usize,
    /// Whether a progress report is due: it is after every `PROGRESS_EVERY`
    /// identifiers.
    pub report: bool,
}

/// What is to be done when a batch is closed, as contracts see it.
pub struct ClosedModel {
    pub lines: Seq<Seq<char>>,
    pub pause_secs: nat,
    pub updated: nat,
    pub report: bool,
}

impl View for Closed {
    type V = ClosedModel;

    open spec fn view(&self) -> ClosedModel {
        ClosedModel {
            lines: self.lines.deep_view(),
            pause_secs: self.pause_secs as nat,
            updated: self.updated as nat,
            report: self.report,
        }
    }
}

/// What is to be done when the current batch of `run` is closed with the
/// outcomes `outcomes`.
pub open spec fn closed_of(run: PipelineModel, outcomes: Seq<Outcome>) -> ClosedModel {
    ClosedModel {
        lines: recorded(batch_of(run.batches), outcomes, run.record_exhausted),
        pause_secs: run.delay_secs,
        updated: advanced(run.batches).position,
        report: advanced(run.batches).position % (PROGRESS_EVERY as nat) == 0,
    }
}

/// A run of the fetch pipeline: its work-list in batches, and what it
/// journals.
#[derive(Debug)]
pub struct Pipeline {
    batches: Batches,
    record_exhausted: bool,
    delay_secs: u64,
}

impl View for Pipeline {
    type V = PipelineModel;

    closed spec fn view(&self) -> PipelineModel {
        PipelineModel {
            batches: self.batches@,
            record_exhausted: self.record_exhausted,
            delay_secs: self.delay_secs as nat,
        }
    }
}

impl Pipeline {
    /// A run over `work` in batches of `width`, with a pause of `delay_secs`
    /// seconds after each batch. With `record_exhausted` an identifier that
    /// exhausted its attempts is journaled like the others and not tried
    /// again by a later run; without it, such an identifier stays out of the
    /// journal. There is no run of width 0.
    pub fn new(work: Vec<String>, width: usize, record_exhausted: bool, delay_secs: u64) -> (run:
        Option<Pipeline>)
        ensures
            run is None <==> width == 0,
            run matches Some(p) ==> p@ == pipeline_of(
                work.deep_view(),
                width as nat,
                record_exhausted,
                delay_secs as nat,
            ),
    {
        match Batches::new(work, width) {
            Some(batches) => Some(Pipeline { batches, record_exhausted, delay_secs }),
            None => None,
        }
    }

    /// Whether every entry of the work-list has been in a finished batch.
    pub fn is_finished(&self) -> (finished: bool)
        ensures
            finished == (self@.batches.position == self@.batches.work.len()),
    {
        self.batches.is_finished()
    }

    /// The identifiers to fetch now. The batch is empty when the run is
    /// finished and only then.
    pub fn next_batch(&self) -> (batch: Vec<String>)
        ensures
            batch.deep_view() == batch_of(self@.batches),
            batch.len() <= self@.batches.width,
            batch.len() == 0 <==> self@.batches.position == self@.batches.work.len(),
    {
        self.batches.next_batch()
    }

    /// Closes the current batch. `outcomes` holds the outcome of each of its
    /// identifiers, in the order of the batch. The result says what to append
    /// to the journal and how long to wait, and the run has moved on to the
    /// next batch. Where `outcomes` does not hold one outcome for each
    /// identifier, the batch is not complete: nothing is journaled and the
    /// run stays where it is.
    pub fn complete_batch(&mut self, outcomes: &Vec<Outcome>) -> (closed: Option<Closed>)
        ensures
            closed is Some <==> outcomes.len() == batch_of(old(self)@.batches).len(),
            closed is None ==> final(self)@ == old(self)@,
            closed matches Some(c) ==> {
                &&& c@ == closed_of(old(self)@, outcomes@)
                &&& final(self)@ == (PipelineModel {
                    batches: advanced(old(self)@.batches),
                    ..old(self)@
                })
            },
    {
        let batch = self.batches.next_batch();
        if outcomes.len() != batch.len() {
            return None;
        }
        let mut lines: Vec<String> = Vec::new();
        let mut i: usize = 0;
        assert(batch.deep_view().take(0) == Seq::<Seq<char>>::empty());
        assert(lines.deep_view() == Seq::<Seq<char>>::empty());
        while i < batch.len()
            invariant
                i <= batch.len() == outcomes.len(),
                lines.deep_view() == recorded(
                    batch.deep_view().take(i as int),
                    outcomes@.take(i as int),
                    self.record_exhausted,
                ),
            decreases batch.len() - i,
        {
            let ghost before = lines.deep_view();
            proof {
                let all = batch.deep_view();
                assert(all.take(i + 1).drop_last() == all.take(i as int));
                assert(outcomes@.take(i + 1).drop_last() == outcomes@.take(i as int));
            }
            let keep = self.record_exhausted || match outcomes[i] {
                Outcome::Exhausted => false,
                _ => true,
            };
            if keep {
                lines.push(batch[i].clone());
                assert(lines.deep_view() == before.push(batch[i as int]@));
            }
            i += 1;
        }
        assert(batch.deep_view().take(batch.len() as int) == batch.deep_view());
        assert(outcomes@.take(outcomes.len() as int) == outcomes@);
        self.batches.advance();
        let updated = self.batches.position();
        Some(
            Closed {
                lines,
                pause_secs: self.delay_secs,
                updated,
                report: updated % PROGRESS_EVERY == 0,
            },
        )
    }
}

/// One identifier that exhausts its attempts keeps none of the others in
/// its batch out of the journal: whatever is set, every identifier with
/// another outcome is recorded.
pub proof fn lemma_others_are_recorded(
    batch: Seq<Seq<char>>,
    outcomes: Seq<Outcome>,
    record_exhausted: bool,
    i: int,
)
    requires
        batch.len() == outcomes.len(),
        0 <= i < batch.len(),
        outcomes[i] != Outcome::Exhausted,
    ensures
        recorded(batch, outcomes, record_exhausted).contains(batch[i]),
    decreases batch.len(),
{
    let front = recorded(batch.drop_last(), outcomes.drop_last(), record_exhausted);
    if i == batch.len() - 1 {
        assert(front.push(batch.last())[front.len() as int] == batch[i]);
    } else {
        lemma_others_are_recorded(batch.drop_last(), outcomes.drop_last(), record_exhausted, i);
        let j = choose|j: int| 0 <= j < front.len() && front[j] == batch.drop_last()[i];
        assert(recorded(batch, outcomes, record_exhausted)[j] == batch[i]);
    }
}

/// Where exhausted identifiers are recorded like the others, the journal
/// receives the whole batch, as it stands.
pub proof fn lemma_whole_batch_is_recorded(batch: Seq<Seq<char>>, outcomes: Seq<Outcome>)
    requires
        batch.len() == outcomes.len(),
    ensures
        recorded(batch, outcomes, true) == batch,
    decreases batch.len(),
{
    if batch.len() > 0 {
        lemma_whole_batch_is_recorded(batch.drop_last(), outcomes.drop_last());
        assert(batch.drop_last().push(batch.last()) == batch);
    }
}

/// Nothing is recorded but identifiers of the batch whose outcome asks for
/// it.
pub proof fn lemma_recorded_is_of_batch(
    batch: Seq<Seq<char>>,
    outcomes: Seq<Outcome>,
    record_exhausted: bool,
    id: Seq<char>,
)
    requires
        batch.len() == outcomes.len(),
        recorded(batch, outcomes, record_exhausted).contains(id),
    ensures
        exists|i: int|
            0 <= i < batch.len() && batch[i] == id && is_recorded(
                #[trigger] outcomes[i],
                record_exhausted,
            ),
    decreases batch.len(),
{
    if batch.len() > 0 {
        let front = recorded(batch.drop_last(), outcomes.drop_last(), record_exhausted);
        let all = recorded(batch, outcomes, record_exhausted);
        let j = choose|j: int| 0 <= j < all.len() && all[j] == id;
        let last = batch.len() - 1;
        if is_recorded(outcomes.last(), record_exhausted) && j == front.len() {
            assert(batch[last] == id && is_recorded(outcomes[last], record_exhausted));
        } else {
            assert(front[j] == id);
            lemma_recorded_is_of_batch(
                batch.drop_last(),
                outcomes.drop_last(),
                record_exhausted,
                id,
            );
            let i = choose|i: int|
                0 <= i < batch.drop_last().len() && batch.drop_last()[i] == id && is_recorded(
                    #[trigger] outcomes.drop_last()[i],
                    record_exhausted,
                );
            assert(batch[i] == id && is_recorded(outcomes[i], record_exhausted));
        }
    }
}

/// What a run journals over its first batches, where `rounds` holds the
/// outcomes of each of them: the recorded identifiers of the first batch,
/// then those of the second, and so on.
pub open spec fn journaled(
    run: BatchesModel,
    record_exhausted: bool,
    rounds: Seq<Seq<Outcome>>,
) -> Seq<Seq<char>>
    decreases rounds.len(),
{
    if rounds.len() == 0 {
        Seq::empty()
    } else {
        let before = rounds.drop_last();
        journaled(run, record_exhausted, before) + recorded(
            batch_of(after_batches(run, before.len())),
            rounds.last(),
            record_exhausted,
        )
    }
}

/// Whether `rounds` holds, for each of the first batches of `run`, one
/// outcome for each of its identifiers.
pub open spec fn rounds_fit(run: BatchesModel, rounds: Seq<Seq<Outcome>>) -> bool {
    forall|k: int|
        0 <= k < rounds.len() ==> (#[trigger] rounds[k]).len() == batch_of(
            after_batches(run, k as nat),
        ).len()
}

/// Where exhausted identifiers are recorded like the others, a run journals
/// its work-list as it stands, batch by batch: after any number of batches
/// the journal has received exactly the entries that these batches held, in
/// their order, whatever the outcomes were. No failing identifier holds the
/// run up, and none is left out.
pub proof fn lemma_run_journals_work(work: Seq<Seq<char>>, width: nat, rounds: Seq<Seq<Outcome>>)
    requires
        width >= 1,
        rounds_fit(batches_of(work, width), rounds),
    ensures
        journaled(batches_of(work, width), true, rounds) == work.take(
            after_batches(batches_of(work, width), rounds.len()).position as int,
        ),
        rounds.len() >= work.len() ==> journaled(batches_of(work, width), true, rounds) == work,
    decreases rounds.len(),
{
    let run = batches_of(work, width);
    lemma_run_finishes(work, width, rounds.len());
    assert(work.take(work.len() as int) == work);
    if rounds.len() == 0 {
        assert(work.take(0) == Seq::<Seq<char>>::empty());
    } else {
        let before = rounds.drop_last();
        assert forall|k: int| 0 <= k < before.len() implies (#[trigger] before[k]).len()
            == batch_of(after_batches(run, k as nat)).len() by {
            assert(before[k] == rounds[k]);
        }
        lemma_run_journals_work(work, width, before);
        let reached = after_batches(run, before.len());
        lemma_run_finishes(work, width, before.len());
        lemma_batches_cover(reached);
        assert(rounds.last() == rounds[rounds.len() - 1]);
        lemma_whole_batch_is_recorded(batch_of(reached), rounds.last());
    }
}

/// Resumption: an identifier that a run recorded in the journal is in no
/// later work-list, whatever that run is asked to do. The identifier must
/// hold no comma, as a journal line ends the identifier at its first comma.
pub proof fn lemma_recorded_is_skipped(
    journal: Seq<Seq<char>>,
    batch: Seq<Seq<char>>,
    outcomes: Seq<Outcome>,
    record_exhausted: bool,
    later_work: Seq<Seq<char>>,
    id: Seq<char>,
)
    requires
        batch.len() == outcomes.len(),
        recorded(batch, outcomes, record_exhausted).contains(id),
        !id.contains(','),
    ensures
        !pending(
            later_work,
            keys_of(journal + recorded(batch, outcomes, record_exhausted)),
        ).contains(id),
{
    let lines = recorded(batch, outcomes, record_exhausted);
    let j = choose|j: int| 0 <= j < lines.len() && lines[j] == id;
    lemma_key_of_plain(id);
    assert(key_of(lines[j]) == id);
    assert(keys_of(lines).contains(id));
    lemma_keys_of_add(journal, lines);
    lemma_pending_contains(later_work, keys_of(journal + lines), id);
}

} // verus!
