//! The completion journal and the work-lists filtered against it.
//!
//! A journal is a sequence of lines. Each line records one finished
//! identifier: the identifier alone, or the identifier, a comma and the
//! revision that was found for it. The key of a line is what stands before
//! its first comma. An identifier whose key is in the journal is never
//! processed again.

use crate::text::{
    chars_of, find_char, first_index_of, lemma_first_index_of, lemma_first_index_of_absent,
    string_of_range,
};
use vstd::hash_set::StringHashSet;
use vstd::prelude::*;

verus! {

/// The identifier that a journal line records: the line up to its first
/// comma, or the whole line when it holds none.
pub open spec fn key_of(line: Seq<char>) -> Seq<char> {
    line.take(first_index_of(line, ','))
}

/// The identifiers that a journal records.
pub open spec fn keys_of(lines: Seq<Seq<char>>) -> Set<Seq<char>> {
    Set::new(
        |id: Seq<char>| exists|i: int| 0 <= i < lines.len() && key_of(#[trigger] lines[i]) == id,
    )
}

/// Whether `id` is still to be processed: it is an identifier (not empty)
/// and `done` does not hold it.
pub open spec fn is_pending(id: Seq<char>, done: Set<Seq<char>>) -> bool {
    id.len() > 0 && !done.contains(id)
}

/// The work-list that remains of `work` once the identifiers in `done` are
/// left out: the pending entries of `work`, in their order.
pub open spec fn pending(work: Seq<Seq<char>>, done: Set<Seq<char>>) -> Seq<Seq<char>> {
    work.filter(|id: Seq<char>| is_pending(id, done))
}

/// The entries of `work` that `known` holds, in their order.
pub open spec fn known_of(work: Seq<Seq<char>>, known: Set<Seq<char>>) -> Seq<Seq<char>> {
    work.filter(|id: Seq<char>| known.contains(id))
}

/// `s` without repetitions: of equal entries only the first stays, and the
/// order of what stays is kept.
pub open spec fn distinct(s: Seq<Seq<char>>) -> Seq<Seq<char>>
    decreases s.len(),
{
    if s.len() == 0 {
        s
    } else {
        let d = distinct(s.drop_last());
        if d.contains(s.last()) {
            d
        } else {
            d.push(s.last())
        }
    }
}

/// A line without a comma is its own key.
pub proof fn lemma_key_of_plain(line: Seq<char>)
    requires
        !line.contains(','),
    ensures
        key_of(line) == line,
{
    lemma_first_index_of_absent(line, ',');
    assert(line.take(line.len() as int) == line);
}

/// The keys of a journal that grew by one line.
pub proof fn lemma_keys_of_push(lines: Seq<Seq<char>>, line: Seq<char>)
    ensures
        keys_of(lines.push(line)) == keys_of(lines).insert(key_of(line)),
{
    let grown = lines.push(line);
    assert forall|id: Seq<char>| keys_of(grown).contains(id) <==> keys_of(lines).insert(
        key_of(line),
    ).contains(id) by {
        if keys_of(grown).contains(id) {
            let i = choose|i: int| 0 <= i < grown.len() && key_of(#[trigger] grown[i]) == id;
            if i < lines.len() {
                assert(key_of(lines[i]) == id);
            }
        }
        if keys_of(lines).contains(id) {
            let i = choose|i: int| 0 <= i < lines.len() && key_of(#[trigger] lines[i]) == id;
            assert(key_of(grown[i]) == id);
        }
        if id == key_of(line) {
            assert(key_of(grown[lines.len() as int]) == id);
        }
    }
    assert(keys_of(grown) =~= keys_of(lines).insert(key_of(line)));
}

/// An empty journal records nothing.
pub proof fn lemma_keys_of_empty()
    ensures
        keys_of(Seq::<Seq<char>>::empty()) == Set::<Seq<char>>::empty(),
{
    assert(keys_of(Seq::<Seq<char>>::empty()) =~= Set::<Seq<char>>::empty());
}

/// The journal made of two journals records what either records.
pub proof fn lemma_keys_of_add(a: Seq<Seq<char>>, b: Seq<Seq<char>>)
    ensures
        keys_of(a + b) == keys_of(a).union(keys_of(b)),
    decreases b.len(),
{
    if b.len() == 0 {
        assert(a + b == a);
        lemma_keys_of_empty();
        assert(keys_of(a).union(keys_of(b)) =~= keys_of(a));
    } else {
        let front = b.drop_last();
        lemma_keys_of_add(a, front);
        assert(a + b == (a + front).push(b.last()));
        assert(b == front.push(b.last()));
        lemma_keys_of_push(a + front, b.last());
        lemma_keys_of_push(front, b.last());
        assert(keys_of(a + b) =~= keys_of(a).union(keys_of(b)));
    }
}

/// The remaining work-list of a work-list that grew by one entry.
pub proof fn lemma_pending_push(work: Seq<Seq<char>>, id: Seq<char>, done: Set<Seq<char>>)
    ensures
        pending(work.push(id), done) == if is_pending(id, done) {
            pending(work, done).push(id)
        } else {
            pending(work, done)
        },
{
    reveal(Seq::filter);
    assert(work.push(id).drop_last() == work);
}

/// What remains of a work-list is made of its pending entries only, and
/// holds every one of them.
pub proof fn lemma_pending_contains(work: Seq<Seq<char>>, done: Set<Seq<char>>, id: Seq<char>)
    ensures
        pending(work, done).contains(id) <==> work.contains(id) && is_pending(id, done),
    decreases work.len(),
{
    reveal(Seq::filter);
    if work.len() == 0 {
    } else {
        let front = work.drop_last();
        lemma_pending_contains(front, done, id);
        assert(work == front.push(work.last()));
        lemma_pending_push(front, work.last(), done);
        let p = pending(front, done);
        if work.contains(id) {
            let i = choose|i: int| 0 <= i < work.len() && work[i] == id;
            if i < front.len() {
                assert(front[i] == id);
            }
        }
        if front.contains(id) {
            let i = choose|i: int| 0 <= i < front.len() && front[i] == id;
            assert(work[i] == id);
        }
        if is_pending(work.last(), done) {
            let q = p.push(work.last());
            if q.contains(id) {
                let i = choose|i: int| 0 <= i < q.len() && q[i] == id;
                if i < p.len() {
                    assert(p[i] == id);
                }
            }
            if p.contains(id) {
                let i = choose|i: int| 0 <= i < p.len() && p[i] == id;
                assert(q[i] == id);
            }
            assert(q[p.len() as int] == work.last());
        }
        assert(work[work.len() - 1] == work.last());
    }
}

/// Resumption: an identifier that the journal records is in no work-list
/// that remains once the journal is taken into account, whatever the
/// work-list holds.
pub proof fn lemma_journaled_is_skipped(
    work: Seq<Seq<char>>,
    journal: Seq<Seq<char>>,
    id: Seq<char>,
)
    requires
        keys_of(journal).contains(id),
    ensures
        !pending(work, keys_of(journal)).contains(id),
{
    lemma_pending_contains(work, keys_of(journal), id);
}

/// A journal never forgets: what it records is still recorded when lines
/// have been appended to it.
pub proof fn lemma_journal_grows(journal: Seq<Seq<char>>, appended: Seq<Seq<char>>, id: Seq<char>)
    requires
        keys_of(journal).contains(id),
    ensures
        keys_of(journal + appended).contains(id),
{
    lemma_keys_of_add(journal, appended);
}

/// `distinct` keeps exactly the entries of its argument, each once.
pub proof fn lemma_distinct(s: Seq<Seq<char>>)
    ensures
        distinct(s).no_duplicates(),
        forall|id: Seq<char>| distinct(s).contains(id) <==> s.contains(id),
        distinct(s).len() <= s.len(),
    decreases s.len(),
{
    if s.len() == 0 {
    } else {
        let front = s.drop_last();
        let d = distinct(front);
        lemma_distinct(front);
        assert(s == front.push(s.last()));
        assert forall|id: Seq<char>| distinct(s).contains(id) <==> s.contains(id) by {
            if s.contains(id) {
                let i = choose|i: int| 0 <= i < s.len() && s[i] == id;
                if i < front.len() {
                    assert(front[i] == id);
                }
            }
            if front.contains(id) {
                let i = choose|i: int| 0 <= i < front.len() && front[i] == id;
                assert(s[i] == id);
            }
            assert(s[s.len() - 1] == s.last());
            if !d.contains(s.last()) {
                let q = d.push(s.last());
                if q.contains(id) {
                    let i = choose|i: int| 0 <= i < q.len() && q[i] == id;
                    if i < d.len() {
                        assert(d[i] == id);
                    }
                }
                if d.contains(id) {
                    let i = choose|i: int| 0 <= i < d.len() && d[i] == id;
                    assert(q[i] == id);
                }
                assert(q[d.len() as int] == s.last());
            }
        }
    }
}

/// A sequence without repetitions is left as it is.
pub proof fn lemma_distinct_of_distinct(s: Seq<Seq<char>>)
    requires
        s.no_duplicates(),
    ensures
        distinct(s) == s,
    decreases s.len(),
{
    if s.len() == 0 {
    } else {
        let front = s.drop_last();
        lemma_distinct_of_distinct(front);
        lemma_distinct(front);
        if front.contains(s.last()) {
            let i = choose|i: int| 0 <= i < front.len() && front[i] == s.last();
            assert(s[i] == s[s.len() - 1]);
        }
        assert(s == front.push(s.last()));
    }
}

/// The identifier recorded by one journal line.
pub fn journal_key(line: &str) -> (key: String)
    ensures
        key@ == key_of(line@),
{
    let chars = chars_of(line);
    let end = find_char(&chars, ',');
    proof {
        lemma_first_index_of(line@, ',');
    }
    string_of_range(&chars, 0, end)
}

/// The set of identifiers that the journal `lines` records.
pub fn build_set(lines: &Vec<String>) -> (set: StringHashSet)
    ensures
        set@ == keys_of(lines.deep_view()),
{
    let mut set = StringHashSet::new();
    let mut i: usize = 0;
    proof {
        lemma_keys_of_empty();
        assert(lines.deep_view().take(0) == Seq::<Seq<char>>::empty());
    }
    while i < lines.len()
        invariant
            i <= lines.len(),
            set@ == keys_of(lines.deep_view().take(i as int)),
        decreases lines.len() - i,
    {
        let key = journal_key(lines[i].as_str());
        proof {
            let all = lines.deep_view();
            assert(all.take(i + 1) == all.take(i as int).push(all[i as int]));
            lemma_keys_of_push(all.take(i as int), all[i as int]);
        }
        set.insert(key);
        i += 1;
    }
    assert(lines.deep_view().take(lines.len() as int) == lines.deep_view());
    set
}

/// The entries of `work` that are identifiers and that `done` does not
/// hold, in their order.
pub fn remaining(work: &Vec<String>, done: &StringHashSet) -> (out: Vec<String>)
    ensures
        out.deep_view() == pending(work.deep_view(), done@),
{
    let mut out: Vec<String> = Vec::new();
    let mut i: usize = 0;
    proof {
        reveal(Seq::filter);
        assert(work.deep_view().take(0) == Seq::<Seq<char>>::empty());
        assert(out.deep_view() == Seq::<Seq<char>>::empty());
    }
    while i < work.len()
        invariant
            i <= work.len(),
            out.deep_view() == pending(work.deep_view().take(i as int), done@),
        decreases work.len() - i,
    {
        let id = &work[i];
        let ghost before = out.deep_view();
        proof {
            let all = work.deep_view();
            assert(all.take(i + 1) == all.take(i as int).push(all[i as int]));
            lemma_pending_push(all.take(i as int), all[i as int], done@);
        }
        if !id.as_str().is_empty() && !done.contains(id.as_str()) {
            out.push(id.clone());
            assert(out.deep_view() == before.push(id@));
        }
        i += 1;
    }
    assert(work.deep_view().take(work.len() as int) == work.deep_view());
    out
}

/// The entries of `work` that `known` holds, in their order: the work-list
/// cut down to what is locally known.
pub fn retain_known(work: &Vec<String>, known: &StringHashSet) -> (out: Vec<String>)
    ensures
        out.deep_view() == known_of(work.deep_view(), known@),
{
    let mut out: Vec<String> = Vec::new();
    let mut i: usize = 0;
    proof {
        reveal(Seq::filter);
        assert(work.deep_view().take(0) == Seq::<Seq<char>>::empty());
        assert(out.deep_view() == Seq::<Seq<char>>::empty());
    }
    while i < work.len()
        invariant
            i <= work.len(),
            out.deep_view() == known_of(work.deep_view().take(i as int), known@),
        decreases work.len() - i,
    {
        let id = &work[i];
        let ghost before = out.deep_view();
        proof {
            reveal(Seq::filter);
            let all = work.deep_view();
            assert(all.take(i + 1).drop_last() == all.take(i as int));
            assert(all.take(i + 1).last() == id@);
        }
        if known.contains(id.as_str()) {
            out.push(id.clone());
            assert(out.deep_view() == before.push(id@));
        }
        i += 1;
    }
    assert(work.deep_view().take(work.len() as int) == work.deep_view());
    out
}

/// `ids` without repetitions: the first of equal entries stays.
pub fn deduplicate(ids: &Vec<String>) -> (out: Vec<String>)
    ensures
        out.deep_view() == distinct(ids.deep_view()),
{
    let mut out: Vec<String> = Vec::new();
    let mut seen = StringHashSet::new();
    let mut i: usize = 0;
    proof {
        assert(ids.deep_view().take(0) == Seq::<Seq<char>>::empty());
        assert(out.deep_view() == Seq::<Seq<char>>::empty());
    }
    while i < ids.len()
        invariant
            i <= ids.len(),
            out.deep_view() == distinct(ids.deep_view().take(i as int)),
            forall|id: Seq<char>| seen@.contains(id) <==> out.deep_view().contains(id),
        decreases ids.len() - i,
    {
        let id = &ids[i];
        let ghost before = out.deep_view();
        proof {
            let all = ids.deep_view();
            assert(all.take(i + 1).drop_last() == all.take(i as int));
            assert(all.take(i + 1).last() == id@);
        }
        if !seen.contains(id.as_str()) {
            seen.insert(id.clone());
            out.push(id.clone());
            proof {
                let after = out.deep_view();
                assert(after == before.push(id@));
                assert forall|x: Seq<char>| seen@.contains(x) <==> after.contains(x) by {
                    if after.contains(x) {
                        let j = choose|j: int| 0 <= j < after.len() && after[j] == x;
                        if j < before.len() {
                            assert(before[j] == x);
                        }
                    }
                    if before.contains(x) {
                        let j = choose|j: int| 0 <= j < before.len() && before[j] == x;
                        assert(after[j] == x);
                    }
                    assert(after[before.len() as int] == id@);
                }
            }
        }
        i += 1;
    }
    assert(ids.deep_view().take(ids.len() as int) == ids.deep_view());
    out
}

} // verus!
