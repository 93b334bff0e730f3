//! Candidates from a dated metadata snapshot: the articles that got a
//! revision beyond their first since the last update.
//!
//! A snapshot holds, for each article, its revisions with the date at which
//! each was created, as text in the format of RFC 2822. The dates are read
//! by the `chrono` crate; which articles are candidates is decided here.

use vstd::prelude::*;
use vstd::string::StringExecFns;

verus! {

/// The name of the first revision of an article. It is never a candidate:
/// the local corpus holds it.
pub const FIRST_VERSION: &'static str = "v1";

/// The last update where nothing else is configured: the start of
/// 1 November 2022, in seconds since the start of 1970 (UTC).
pub const LAST_UPDATE_SECONDS: i64 = 1667260800;

/// A point in time: the seconds since the start of 1970 (UTC), leap
/// seconds not counted, and the nanoseconds since the start of that second.
/// Within a leap second the nanoseconds go beyond 999,999,999.
#[derive(Clone, Copy, Debug, PartialEq, Eq, Structural)]
pub struct Instant {
    pub seconds: i64,
    pub nanos: u32,
}

/// What `chrono` reads from `text` as a date in the format of RFC 2822:
/// the seconds and the nanoseconds of the point in time that it names, or
/// `None` where `chrono` does not accept the text.
pub uninterp spec fn rfc2822_instant(text: Seq<char>) -> Option<(i64, u32)>;

/// Calls `DateTime::parse_from_rfc2822` of `chrono` on `text` and, on the
/// date it gives, `timestamp` and `timestamp_subsec_nanos`. The contract
/// gives the result its name; it claims that the result depends on the text
/// alone, and nothing about what it holds.
#[verifier::external_body]
pub(crate) fn parse_rfc2822(text: &str) -> (instant: Option<(i64, u32)>)
    ensures
        instant == rfc2822_instant(text@),
{
    match chrono::DateTime::parse_from_rfc2822(text) {
        Ok(date) => Some((date.timestamp(), date.timestamp_subsec_nanos())),
        Err(_) => None,
    }
}

/// The point in time that `parts` holds as seconds and nanoseconds.
pub open spec fn instant_of(parts: Option<(i64, u32)>) -> Option<Instant> {
    match parts {
        Some((seconds, nanos)) => Some(Instant { seconds, nanos }),
        None => None,
    }
}

/// Whether `a` is later than `b`.
pub open spec fn is_later(a: Instant, b: Instant) -> bool {
    a.seconds > b.seconds || (a.seconds == b.seconds && a.nanos > b.nanos)
}

/// Whether `a` is later than `b`.
pub fn later(a: Instant, b: Instant) -> (r: bool)
    ensures
        r == is_later(a, b),
{
    a.seconds > b.seconds || (a.seconds == b.seconds && a.nanos > b.nanos)
}

/// One revision of an article in a snapshot.
#[derive(Clone, Debug, PartialEq, Eq)]
pub struct Revision {
    /// The name of the revision: `v1`, `v2` and so on.
    pub version: String,
    /// When the revision was created, where its date could be read.
    pub created: Option<Instant>,
}

/// One revision of an article as contracts see it.
pub struct RevisionModel {
    pub version: Seq<char>,
    pub created: Option<Instant>,
}

impl View for Revision {
    type V = RevisionModel;

    open spec fn view(&self) -> RevisionModel {
        RevisionModel { version: self.version@, created: self.created }
    }
}

impl DeepView for Revision {
    type V = RevisionModel;

    open spec fn deep_view(&self) -> RevisionModel {
        self@
    }
}

/// Whether an article with these revisions, in the order of the snapshot,
/// is a candidate: it has a revision that was created later than
/// `last_update` and that is not its first. The revisions are looked at in
/// their order up to the first such revision. A revision without a
/// readable date that is reached on the way makes the answer `None`.
pub open spec fn revised_since(revisions: Seq<RevisionModel>, last_update: Instant) -> Option<
    bool,
>
    decreases revisions.len(),
{
    if revisions.len() == 0 {
        Some(false)
    } else {
        match revisions[0].created {
            None => None,
            Some(created) => if is_later(created, last_update) && revisions[0].version
                != FIRST_VERSION@ {
                Some(true)
            } else {
                revised_since(revisions.drop_first(), last_update)
            },
        }
    }
}

/// The revision named `version` with the creation date `created`, a text
/// in the format of RFC 2822.
pub fn revision(version: String, created: &str) -> (r: Revision)
    ensures
        r@ == (RevisionModel {
            version: version@,
            created: instant_of(rfc2822_instant(created@)),
        }),
{
    revision_at(version, parse_rfc2822(created))
}

/// The revision named `version` that was created at the point in time of
/// `created`, given as seconds and nanoseconds, or at an unknown time.
pub fn revision_at(version: String, created: Option<(i64, u32)>) -> (r: Revision)
    ensures
        r@ == (RevisionModel { version: version@, created: instant_of(created) }),
{
    let created = match created {
        Some((seconds, nanos)) => Some(Instant { seconds, nanos }),
        None => None,
    };
    Revision { version, created }
}

/// Whether an article with the revisions `revisions` is a candidate.
pub fn is_revised_since(revisions: &Vec<Revision>, last_update: Instant) -> (answer: Option<bool>)
    ensures
        answer == revised_since(revisions.deep_view(), last_update),
{
    let first = String::from_str(FIRST_VERSION);
    let mut i: usize = 0;
    assert(revisions.deep_view().skip(0) == revisions.deep_view());
    while i < revisions.len()
        invariant
            i <= revisions.len(),
            first@ == FIRST_VERSION@,
            revised_since(revisions.deep_view(), last_update) == revised_since(
                revisions.deep_view().skip(i as int),
                last_update,
            ),
        decreases revisions.len() - i,
    {
        proof {
            let all = revisions.deep_view();
            assert(all.skip(i as int).drop_first() == all.skip(i + 1));
            assert(all.skip(i as int)[0] == revisions[i as int]@);
        }
        match revisions[i].created {
            None => {
                return None;
            },
            Some(created) => {
                if later(created, last_update) && revisions[i].version != first {
                    return Some(true);
                }
            },
        }
        i += 1;
    }
    Some(false)
}

/// An article whose only revision is its first is no candidate, whenever
/// that revision was created.
pub proof fn lemma_first_version_is_no_candidate(created: Instant, last_update: Instant)
    ensures
        revised_since(
            seq![RevisionModel { version: FIRST_VERSION@, created: Some(created) }],
            last_update,
        ) == Some(false),
{
    reveal_with_fuel(revised_since, 2);
    let revisions = seq![RevisionModel { version: FIRST_VERSION@, created: Some(created) }];
    assert(revisions.drop_first().len() == 0);
}

/// An article is a candidate only if one of its revisions was created
/// later than the last update and is not the first.
pub proof fn lemma_candidate_has_new_revision(revisions: Seq<RevisionModel>, last_update: Instant)
    requires
        revised_since(revisions, last_update) == Some(true),
    ensures
        exists|i: int|
            0 <= i < revisions.len() && (#[trigger] revisions[i]).version != FIRST_VERSION@
                && revisions[i].created is Some && is_later(
                revisions[i].created->0,
                last_update,
            ),
    decreases revisions.len(),
{
    let head = revisions[0];
    if head.created is Some && is_later(head.created->0, last_update) && head.version
        != FIRST_VERSION@ {
    } else {
        let rest = revisions.drop_first();
        lemma_candidate_has_new_revision(rest, last_update);
        let i = choose|i: int|
            0 <= i < rest.len() && (#[trigger] rest[i]).version != FIRST_VERSION@
                && rest[i].created is Some && is_later(rest[i].created->0, last_update);
        assert(revisions[i + 1] == rest[i]);
    }
}

} // verus!
