//! The direct probe: the latest revision of an article, found by asking
//! for one revision after the other.
//!
//! The page of revision `N` of an article answers with success only if that
//! revision exists. Revision 1 is taken to exist. A `Probe` asks for
//! revision 2, 3 and so on while the checks succeed, and ends with the last
//! revision that was confirmed. Nothing here touches the network: the
//! caller makes the checks.

use crate::batch::{advanced, batch_of, batches_of, Batches, BatchesModel};
use crate::journal::{key_of, keys_of, lemma_keys_of_add, lemma_pending_contains, pending};
use crate::text::{decimal, decimal_string, lemma_first_index_of_unique};
use crate::MAX_ATTEMPTS;
use vstd::prelude::*;
use vstd::string::StringExecFns;

verus! {

/// Address of the page of an article: the identifier, the letter `v` and
/// the revision follow it.
pub const ABS_URL: &'static str = "https://export.arxiv.org/abs/";

/// Number of identifiers that are probed at once.
pub const CHECK_WIDTH: usize = 4;

/// Seconds to wait between two checks of one article, and between two
/// batches.
pub const COURTESY_SECS: u64 = 1;

/// Seconds to wait before a check is repeated after a server error.
pub const BACKOFF_SECS: u64 = 10;

/// What one check brought.
#[derive(Clone, Copy, Debug, PartialEq, Eq, Structural)]
pub enum Probed {
    /// The service answered with this status.
    Status(u16),
    /// The connection to the service could not be made.
    ConnectFailure,
    /// The request failed in another way.
    OtherFailure,
}

/// Why a run has to stop at once.
#[derive(Clone, Copy, Debug, PartialEq, Eq, Structural)]
pub enum Fatal {
    /// The service denies access to this client (status 403).
    Forbidden,
    /// The service cannot be reached. Whether the revision exists is
    /// unknown, and is not to be mistaken for "not found".
    ConnectFailed,
}

/// What follows from one check.
#[derive(Clone, Copy, Debug, PartialEq, Eq, Structural)]
pub enum UrlCheck {
    /// The revision exists.
    Exists,
    /// The revision does not exist.
    Absent,
    /// The check says nothing; it may be repeated after a pause of so many
    /// seconds.
    Retry { pause_secs: u64 },
    /// The run has to stop.
    Fatal(Fatal),
}

/// The verdict on one check: success confirms the revision, "bad request"
/// and "not found" deny it, a denial of access and a failed connection stop
/// the run, a server error is worth a later repetition and everything else
/// an immediate one.
pub open spec fn check_of(probed: Probed) -> UrlCheck {
    match probed {
        Probed::Status(status) => if status == 200 {
            UrlCheck::Exists
        } else if status == 403 {
            UrlCheck::Fatal(Fatal::Forbidden)
        } else if status == 400 || status == 404 {
            UrlCheck::Absent
        } else if status == 500 || status == 503 {
            UrlCheck::Retry { pause_secs: BACKOFF_SECS }
        } else {
            UrlCheck::Retry { pause_secs: 0 }
        },
        Probed::ConnectFailure => UrlCheck::Fatal(Fatal::ConnectFailed),
        Probed::OtherFailure => UrlCheck::Retry { pause_secs: 0 },
    }
}

/// The verdict on one check.
pub fn judge_check(probed: Probed) -> (check: UrlCheck)
    ensures
        check == check_of(probed),
{
    match probed {
        Probed::Status(status) => {
            if status == 200 {
                UrlCheck::Exists
            } else if status == 403 {
                UrlCheck::Fatal(Fatal::Forbidden)
            } else if status == 400 || status == 404 {
                UrlCheck::Absent
            } else if status == 500 || status == 503 {
                UrlCheck::Retry { pause_secs: BACKOFF_SECS }
            } else {
                UrlCheck::Retry { pause_secs: 0 }
            }
        },
        Probed::ConnectFailure => UrlCheck::Fatal(Fatal::ConnectFailed),
        Probed::OtherFailure => UrlCheck::Retry { pause_secs: 0 },
    }
}

/// How a probe ended.
#[derive(Clone, Copy, Debug, PartialEq, Eq, Structural)]
pub enum ProbeEnd {
    /// The latest revision that was confirmed.
    Latest(u64),
    /// The run has to stop; no revision is reported.
    Stopped(Fatal),
}

/// A probe as contracts see it.
pub struct ProbeModel {
    /// The identifier that is probed.
    pub id: Seq<char>,
    /// The revision that is checked.
    pub version: nat,
    /// Attempts spent on that revision.
    pub attempts: nat,
    /// Seconds to wait before the next check.
    pub pause: nat,
    /// How the probe ended, once it has.
    pub end: Option<ProbeEnd>,
}

/// A probe of `id` before its first check: revision 2 is checked first.
pub open spec fn fresh_probe(id: Seq<char>) -> ProbeModel {
    ProbeModel { id, version: 2, attempts: 0, pause: 0, end: None }
}

/// The address of the page of revision `version` of `id`.
pub open spec fn abs_url_of(id: Seq<char>, version: nat) -> Seq<char> {
    ABS_URL@ + id + seq!['v'] + decimal(version)
}

/// The probe after one more check. A finished probe stays as it is. A
/// confirmed revision makes the probe go on to the next one, after the
/// courtesy pause; where there is no next one, it is the latest. A revision
/// that is denied, or that three checks in a row say nothing of, ends the
/// probe with the revision before it.
pub open spec fn after_check(p: ProbeModel, probed: Probed) -> ProbeModel {
    if p.end is Some {
        p
    } else {
        match check_of(probed) {
            UrlCheck::Exists => if p.version >= u64::MAX {
                ProbeModel { end: Some(ProbeEnd::Latest(p.version as u64)), ..p }
            } else {
                ProbeModel {
                    id: p.id,
                    version: p.version + 1,
                    attempts: 0,
                    pause: COURTESY_SECS as nat,
                    end: None,
                }
            },
            UrlCheck::Absent => ProbeModel {
                attempts: p.attempts + 1,
                end: Some(ProbeEnd::Latest((p.version - 1) as u64)),
                ..p
            },
            UrlCheck::Retry { pause_secs } => ProbeModel {
                id: p.id,
                version: p.version,
                attempts: p.attempts + 1,
                pause: pause_secs as nat,
                end: if p.attempts + 1 >= MAX_ATTEMPTS {
                    Some(ProbeEnd::Latest((p.version - 1) as u64))
                } else {
                    None
                },
            },
            UrlCheck::Fatal(fatal) => ProbeModel {
                attempts: p.attempts + 1,
                end: Some(ProbeEnd::Stopped(fatal)),
                ..p
            },
        }
    }
}

/// The probe after a sequence of checks, the first of them first.
pub open spec fn after_checks(p: ProbeModel, checks: Seq<Probed>) -> ProbeModel
    decreases checks.len(),
{
    if checks.len() == 0 {
        p
    } else {
        after_check(after_checks(p, checks.drop_last()), checks.last())
    }
}

/// The check that a probe asks for.
#[derive(Clone, Debug, PartialEq, Eq)]
pub struct CheckRequest {
    /// The address to check.
    pub url: String,
    /// Seconds to wait before the check is made.
    pub pause_secs: u64,
}

/// The probe of one article.
#[derive(Debug)]
pub struct Probe {
    id: String,
    version: u64,
    attempts: u8,
    pause: u64,
    end: Option<ProbeEnd>,
}

impl View for Probe {
    type V = ProbeModel;

    closed spec fn view(&self) -> ProbeModel {
        ProbeModel {
            id: self.id@,
            version: self.version as nat,
            attempts: self.attempts as nat,
            pause: self.pause as nat,
            end: self.end,
        }
    }
}

/// A probe of the article `arxiv_id`.
pub fn fish_out_article_version(arxiv_id: &str) -> (probe: Probe)
    ensures
        probe@ == fresh_probe(arxiv_id@),
{
    Probe { id: String::from_str(arxiv_id), version: 2, attempts: 0, pause: 0, end: None }
}

impl Probe {
    #[verifier::type_invariant]
    spec fn within_budget(self) -> bool {
        &&& self.version >= 2
        &&& if self.end is None {
            self.attempts < MAX_ATTEMPTS
        } else {
            self.attempts <= MAX_ATTEMPTS
        }
        &&& self.end matches Some(ProbeEnd::Latest(latest)) ==> latest >= 1
    }

    /// The identifier that is probed.
    pub fn id(&self) -> (id: &str)
        ensures
            id@ == self@.id,
    {
        self.id.as_str()
    }

    /// How the probe ended, once it has. A revision that it reports is 1 at
    /// least.
    pub fn end(&self) -> (end: Option<ProbeEnd>)
        ensures
            end == self@.end,
            end matches Some(ProbeEnd::Latest(latest)) ==> latest >= 1,
    {
        proof {
            use_type_invariant(self);
        }
        self.end
    }

    /// The check to make next, or `None` when the probe is over.
    pub fn request(&self) -> (request: Option<CheckRequest>)
        ensures
            request is None <==> self@.end is Some,
            request matches Some(r) ==> {
                &&& r.url@ == abs_url_of(self@.id, self@.version)
                &&& r.pause_secs == self@.pause
            },
    {
        match self.end {
            Some(_) => None,
            None => {
                let mut url = String::from_str(ABS_URL);
                url.append(self.id.as_str());
                url.push('v');
                url.append(decimal_string(self.version).as_str());
                Some(CheckRequest { url, pause_secs: self.pause })
            },
        }
    }

    /// Takes in what the check last named brought.
    pub fn record(self, probed: Probed) -> (next: Probe)
        ensures
            next@ == after_check(self@, probed),
    {
        proof {
            use_type_invariant(&self);
        }
        if self.end.is_some() {
            return self;
        }
        match judge_check(probed) {
            UrlCheck::Exists => {
                if self.version == u64::MAX {
                    Probe { end: Some(ProbeEnd::Latest(self.version)), ..self }
                } else {
                    Probe {
                        id: self.id,
                        version: self.version + 1,
                        attempts: 0,
                        pause: COURTESY_SECS,
                        end: None,
                    }
                }
            },
            UrlCheck::Absent => Probe {
                attempts: self.attempts + 1,
                end: Some(ProbeEnd::Latest(self.version - 1)),
                ..self
            },
            UrlCheck::Retry { pause_secs } => {
                let attempts: u8 = self.attempts + 1;
                Probe {
                    id: self.id,
                    version: self.version,
                    attempts,
                    pause: pause_secs,
                    end: if attempts >= MAX_ATTEMPTS {
                        Some(ProbeEnd::Latest(self.version - 1))
                    } else {
                        None
                    },
                }
            },
            UrlCheck::Fatal(fatal) => Probe {
                attempts: self.attempts + 1,
                end: Some(ProbeEnd::Stopped(fatal)),
                ..self
            },
        }
    }
}

/// `n` checks that all confirm their revision.
pub open spec fn confirmations(n: nat) -> Seq<Probed> {
    Seq::new(n, |i: int| Probed::Status(200))
}

/// Whether every check of `checks` says nothing of its revision.
pub open spec fn all_silent(checks: Seq<Probed>) -> bool {
    forall|i: int| 0 <= i < checks.len() ==> check_of(#[trigger] checks[i]) is Retry
}

/// Checks that say nothing leave the probe at its revision, as long as
/// they are fewer than the budget holds.
pub proof fn lemma_silent_checks(p: ProbeModel, silent: Seq<Probed>)
    requires
        p.end is None,
        all_silent(silent),
        p.attempts + silent.len() < MAX_ATTEMPTS,
    ensures
        after_checks(p, silent).end is None,
        after_checks(p, silent).id == p.id,
        after_checks(p, silent).version == p.version,
        after_checks(p, silent).attempts == p.attempts + silent.len(),
    decreases silent.len(),
{
    if silent.len() > 0 {
        let front = silent.drop_last();
        assert forall|i: int| 0 <= i < front.len() implies check_of(#[trigger] front[i])
            is Retry by {
            assert(front[i] == silent[i]);
        }
        lemma_silent_checks(p, front);
        assert(check_of(silent[silent.len() - 1]) is Retry);
    }
}

/// A revision that is confirmed after checks that said nothing, fewer than
/// the budget holds, counts as if it had been confirmed at once: the probe
/// goes on to the next revision with a fresh budget.
pub proof fn lemma_confirmed_after_retries(p: ProbeModel, silent: Seq<Probed>)
    requires
        p.end is None,
        p.version < u64::MAX,
        all_silent(silent),
        p.attempts + silent.len() < MAX_ATTEMPTS,
    ensures
        after_checks(p, silent.push(Probed::Status(200))) == (ProbeModel {
            id: p.id,
            version: p.version + 1,
            attempts: 0,
            pause: COURTESY_SECS as nat,
            end: None,
        }),
{
    lemma_silent_checks(p, silent);
    assert(silent.push(Probed::Status(200)).drop_last() == silent);
}

/// Checks taken in one after the other are taken in as one sequence.
pub proof fn lemma_after_checks_add(p: ProbeModel, a: Seq<Probed>, b: Seq<Probed>)
    ensures
        after_checks(p, a + b) == after_checks(after_checks(p, a), b),
    decreases b.len(),
{
    if b.len() == 0 {
        assert(a + b == a);
    } else {
        lemma_after_checks_add(p, a, b.drop_last());
        assert((a + b).drop_last() == a + b.drop_last());
        assert((a + b).last() == b.last());
    }
}

/// After `n` confirmations in a row a fresh probe checks revision `2 + n`,
/// with a fresh budget.
pub proof fn lemma_probe_advances(id: Seq<char>, n: nat)
    requires
        2 + n <= u64::MAX,
    ensures
        after_checks(fresh_probe(id), confirmations(n)).end is None,
        after_checks(fresh_probe(id), confirmations(n)).id == id,
        after_checks(fresh_probe(id), confirmations(n)).version == 2 + n,
        after_checks(fresh_probe(id), confirmations(n)).attempts == 0,
    decreases n,
{
    if n > 0 {
        lemma_probe_advances(id, (n - 1) as nat);
        assert(confirmations(n).drop_last() == confirmations((n - 1) as nat));
        assert(confirmations(n).last() == Probed::Status(200));
    }
}

/// A probe reports exactly revision `k` when the checks of the revisions 2
/// to `k` succeed and the check of revision `k + 1` denies it.
pub proof fn lemma_probe_finds_latest(id: Seq<char>, k: nat, denial: Probed)
    requires
        1 <= k < u64::MAX,
        check_of(denial) is Absent,
    ensures
        after_checks(fresh_probe(id), confirmations((k - 1) as nat).push(denial)).end == Some(
            ProbeEnd::Latest(k as u64),
        ),
{
    let confirmed = confirmations((k - 1) as nat);
    lemma_probe_advances(id, (k - 1) as nat);
    assert(confirmed.push(denial).drop_last() == confirmed);
}

/// A probe reports exactly revision `k` as well when the checks of the
/// revisions 2 to `k` succeed and the budget is spent on revision `k + 1`
/// without an answer.
pub proof fn lemma_probe_gives_up(id: Seq<char>, k: nat, silent: Seq<Probed>)
    requires
        1 <= k < u64::MAX,
        all_silent(silent),
        silent.len() == MAX_ATTEMPTS,
    ensures
        after_checks(fresh_probe(id), confirmations((k - 1) as nat) + silent).end == Some(
            ProbeEnd::Latest(k as u64),
        ),
{
    let confirmed = confirmations((k - 1) as nat);
    lemma_probe_advances(id, (k - 1) as nat);
    lemma_after_checks_add(fresh_probe(id), confirmed, silent);
    let p = after_checks(fresh_probe(id), confirmed);
    let front = silent.drop_last();
    assert forall|i: int| 0 <= i < front.len() implies check_of(#[trigger] front[i]) is Retry by {
        assert(front[i] == silent[i]);
    }
    lemma_silent_checks(p, front);
    assert(check_of(silent[silent.len() - 1]) is Retry);
}

/// The checks of a probe that confirms one revision after the other, each
/// after the silent checks that `retries` holds for it.
pub open spec fn confirmations_after(retries: Seq<Seq<Probed>>) -> Seq<Probed>
    decreases retries.len(),
{
    if retries.len() == 0 {
        Seq::empty()
    } else {
        confirmations_after(retries.drop_last()) + retries.last().push(Probed::Status(200))
    }
}

/// Whether the silent checks before each confirmation stay within the
/// budget.
pub open spec fn retries_within_budget(retries: Seq<Seq<Probed>>) -> bool {
    forall|i: int|
        0 <= i < retries.len() ==> all_silent(#[trigger] retries[i]) && retries[i].len()
            < MAX_ATTEMPTS
}

/// After as many confirmations as `retries` has entries, each had within
/// the budget, a fresh probe checks the revision behind them with a fresh
/// budget.
pub proof fn lemma_probe_advances_after_retries(id: Seq<char>, retries: Seq<Seq<Probed>>)
    requires
        retries_within_budget(retries),
        2 + retries.len() <= u64::MAX,
    ensures
        after_checks(fresh_probe(id), confirmations_after(retries)).end is None,
        after_checks(fresh_probe(id), confirmations_after(retries)).id == id,
        after_checks(fresh_probe(id), confirmations_after(retries)).version == 2 + retries.len(),
        after_checks(fresh_probe(id), confirmations_after(retries)).attempts == 0,
    decreases retries.len(),
{
    if retries.len() > 0 {
        let front = retries.drop_last();
        let last = retries.last();
        assert forall|i: int| 0 <= i < front.len() implies all_silent(#[trigger] front[i])
            && front[i].len() < MAX_ATTEMPTS by {
            assert(front[i] == retries[i]);
        }
        lemma_probe_advances_after_retries(id, front);
        assert(last == retries[retries.len() - 1]);
        lemma_after_checks_add(
            fresh_probe(id),
            confirmations_after(front),
            last.push(Probed::Status(200)),
        );
        lemma_confirmed_after_retries(
            after_checks(fresh_probe(id), confirmations_after(front)),
            last,
        );
    }
}

/// A probe reports exactly revision `k` when the revisions 2 to `k` are
/// confirmed and revision `k + 1` is denied, however many checks within the
/// budget each of these answers takes.
pub proof fn lemma_probe_finds_latest_after_retries(
    id: Seq<char>,
    k: nat,
    retries: Seq<Seq<Probed>>,
    silent: Seq<Probed>,
    denial: Probed,
)
    requires
        1 <= k < u64::MAX,
        retries.len() == k - 1,
        retries_within_budget(retries),
        all_silent(silent),
        silent.len() < MAX_ATTEMPTS,
        check_of(denial) is Absent,
    ensures
        after_checks(
            fresh_probe(id),
            confirmations_after(retries) + silent.push(denial),
        ).end == Some(ProbeEnd::Latest(k as u64)),
{
    lemma_probe_advances_after_retries(id, retries);
    let p = after_checks(fresh_probe(id), confirmations_after(retries));
    lemma_after_checks_add(fresh_probe(id), confirmations_after(retries), silent.push(denial));
    lemma_silent_checks(p, silent);
    assert(silent.push(denial).drop_last() == silent);
}

/// A check that stops the run ends the probe without a revision, whatever
/// was confirmed before.
pub proof fn lemma_fatal_stops_probe(p: ProbeModel, probed: Probed)
    requires
        p.end is None,
        check_of(probed) is Fatal,
    ensures
        after_check(p, probed).end == Some(ProbeEnd::Stopped(check_of(probed)->Fatal_0)),
{
}

/// The journal line of a checked identifier: the identifier, a comma and
/// the revision in decimal notation.
pub open spec fn version_line(id: Seq<char>, version: nat) -> Seq<char> {
    id + seq![','] + decimal(version)
}

/// The first stop among the ends of the probes of a batch, if there is one.
pub open spec fn first_fatal(ends: Seq<ProbeEnd>) -> Option<Fatal>
    decreases ends.len(),
{
    if ends.len() == 0 {
        None
    } else {
        match ends[0] {
            ProbeEnd::Stopped(fatal) => Some(fatal),
            ProbeEnd::Latest(_) => first_fatal(ends.drop_first()),
        }
    }
}

/// The journal lines of a batch whose probes ended as `ends` says, none of
/// them with a stop.
pub open spec fn version_lines(batch: Seq<Seq<char>>, ends: Seq<ProbeEnd>) -> Seq<Seq<char>> {
    Seq::new(batch.len(), |i: int| version_line(batch[i], ends[i]->Latest_0 as nat))
}

/// How a batch of probes is closed.
#[derive(Clone, Debug, PartialEq, Eq)]
pub enum BatchEnd {
    /// Every probe reported a revision: these lines go into the journal,
    /// the run has moved on, and the next batch waits for so many seconds.
    Journal { lines: Vec<String>, pause_secs: u64 },
    /// The ends given are not one for each identifier of the batch: nothing
    /// is journaled and the run stays where it is.
    Incomplete,
    /// A probe was stopped: the whole run stops, and nothing of this batch
    /// is journaled.
    Abort(Fatal),
}

/// The first stop among `ends`.
pub fn find_fatal(ends: &Vec<ProbeEnd>) -> (fatal: Option<Fatal>)
    ensures
        fatal == first_fatal(ends@),
{
    let mut i: usize = 0;
    assert(ends@.skip(0) == ends@);
    while i < ends.len()
        invariant
            i <= ends.len(),
            first_fatal(ends@) == first_fatal(ends@.skip(i as int)),
        decreases ends.len() - i,
    {
        proof {
            assert(ends@.skip(i as int).drop_first() == ends@.skip(i + 1));
        }
        match ends[i] {
            ProbeEnd::Stopped(fatal) => {
                return Some(fatal);
            },
            ProbeEnd::Latest(_) => {},
        }
        i += 1;
    }
    None
}

/// Where no probe was stopped, each ended with a revision.
pub proof fn lemma_no_fatal(ends: Seq<ProbeEnd>)
    requires
        first_fatal(ends) is None,
    ensures
        forall|i: int| 0 <= i < ends.len() ==> #[trigger] ends[i] is Latest,
    decreases ends.len(),
{
    if ends.len() > 0 {
        lemma_no_fatal(ends.drop_first());
        assert forall|i: int| 0 <= i < ends.len() implies #[trigger] ends[i] is Latest by {
            if i > 0 {
                assert(ends[i] == ends.drop_first()[i - 1]);
            }
        }
    }
}

/// The journal line of the identifier `id`, checked with the latest
/// revision `version`.
pub fn journal_line(id: &str, version: u64) -> (line: String)
    ensures
        line@ == version_line(id@, version as nat),
{
    let mut line = String::from_str(id);
    line.push(',');
    line.append(decimal_string(version).as_str());
    line
}

/// A run of version checks over a work-list.
#[derive(Debug)]
pub struct VersionCheck {
    batches: Batches,
}

impl View for VersionCheck {
    type V = BatchesModel;

    closed spec fn view(&self) -> BatchesModel {
        self.batches@
    }
}

/// A run of version checks over `task_ids`, in batches of `CHECK_WIDTH`.
pub fn check_ids_http(task_ids: Vec<String>) -> (run: VersionCheck)
    ensures
        run@ == batches_of(task_ids.deep_view(), CHECK_WIDTH as nat),
{
    VersionCheck { batches: Batches::new(task_ids, CHECK_WIDTH).unwrap() }
}

impl VersionCheck {
    /// Whether every identifier has been in a finished batch.
    pub fn is_finished(&self) -> (finished: bool)
        ensures
            finished == (self@.position == self@.work.len()),
    {
        self.batches.is_finished()
    }

    /// The identifiers to probe now. The batch is empty when the run is
    /// finished and only then.
    pub fn next_batch(&self) -> (batch: Vec<String>)
        ensures
            batch.deep_view() == batch_of(self@),
            batch.len() <= self@.width,
            batch.len() == 0 <==> self@.position == self@.work.len(),
    {
        self.batches.next_batch()
    }

    /// Closes the current batch. `ends` holds the end of the probe of each
    /// of its identifiers, in the order of the batch.
    pub fn complete_batch(&mut self, ends: &Vec<ProbeEnd>) -> (end: BatchEnd)
        ensures
            ends.len() != batch_of(old(self)@).len() ==> end is Incomplete,
            ends.len() == batch_of(old(self)@).len() ==> match first_fatal(ends@) {
                Some(fatal) => end == BatchEnd::Abort(fatal),
                None => end is Journal,
            },
            end matches BatchEnd::Journal { lines, pause_secs } ==> {
                &&& lines.deep_view() == version_lines(batch_of(old(self)@), ends@)
                &&& pause_secs == COURTESY_SECS
                &&& final(self)@ == advanced(old(self)@)
            },
            !(end is Journal) ==> final(self)@ == old(self)@,
    {
        let batch = self.batches.next_batch();
        if ends.len() != batch.len() {
            return BatchEnd::Incomplete;
        }
        match find_fatal(ends) {
            Some(fatal) => {
                return BatchEnd::Abort(fatal);
            },
            None => {},
        }
        proof {
            lemma_no_fatal(ends@);
        }
        let mut lines: Vec<String> = Vec::new();
        let mut i: usize = 0;
        while i < batch.len()
            invariant
                i <= batch.len() == ends.len(),
                lines.len() == i,
                forall|j: int| 0 <= j < ends.len() ==> #[trigger] ends[j] is Latest,
                forall|j: int|
                    0 <= j < i ==> (#[trigger] lines[j])@ == version_line(
                        batch[j]@,
                        ends[j]->Latest_0 as nat,
                    ),
            decreases batch.len() - i,
        {
            let version = match ends[i] {
                ProbeEnd::Latest(version) => version,
                ProbeEnd::Stopped(_) => 0,
            };
            lines.push(journal_line(batch[i].as_str(), version));
            i += 1;
        }
        assert(lines.deep_view() =~= version_lines(batch.deep_view(), ends@));
        self.batches.advance();
        BatchEnd::Journal { lines, pause_secs: COURTESY_SECS }
    }
}

/// The journal line of a checked identifier records that identifier, if
/// the identifier holds no comma.
pub proof fn lemma_version_line_key(id: Seq<char>, version: nat)
    requires
        !id.contains(','),
    ensures
        key_of(version_line(id, version)) == id,
{
    let line = version_line(id, version);
    assert forall|j: int| 0 <= j < id.len() implies line[j] != ',' by {
        assert(line[j] == id[j]);
        assert(id.contains(id[j]));
    }
    assert(line[id.len() as int] == ',');
    lemma_first_index_of_unique(line, ',', id.len() as int);
    assert(line.take(id.len() as int) == id);
}

/// Resumption: an identifier whose revision a run has journaled is in no
/// later work-list. The identifier must hold no comma, as a journal line
/// ends the identifier at its first comma.
pub proof fn lemma_checked_is_skipped(
    journal: Seq<Seq<char>>,
    batch: Seq<Seq<char>>,
    ends: Seq<ProbeEnd>,
    later_work: Seq<Seq<char>>,
    i: int,
)
    requires
        batch.len() == ends.len(),
        0 <= i < batch.len(),
        !batch[i].contains(','),
    ensures
        !pending(later_work, keys_of(journal + version_lines(batch, ends))).contains(batch[i]),
{
    let lines = version_lines(batch, ends);
    lemma_version_line_key(batch[i], ends[i]->Latest_0 as nat);
    assert(key_of(lines[i]) == batch[i]);
    assert(keys_of(lines).contains(batch[i]));
    lemma_keys_of_add(journal, lines);
    lemma_pending_contains(later_work, keys_of(journal + lines), batch[i]);
}

} // verus!
