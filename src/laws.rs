//! Properties of the store's operations over any sequence of records.

use vstd::prelude::*;
use crate::store::{
    find_result, holds_locator, holds_url, lookup_result, records_unique, resolve_outcome,
    RecordView, Status, StoreError,
};

verus! {

/// Exactly one record holds the long URL.
pub open spec fn exactly_one_record(recs: Seq<RecordView>, long_url: Seq<char>) -> bool {
    exists|i: int|
        0 <= i < recs.len() && #[trigger] recs[i].long_url == long_url && forall|j: int|
            0 <= j < recs.len() && #[trigger] recs[j].long_url == long_url ==> j == i
}

/// Adding a record whose long URL and locator are both new keeps the
/// records unique.
pub proof fn lemma_push_keeps_records_unique(recs: Seq<RecordView>, added: RecordView)
    requires
        records_unique(recs),
        !holds_url(recs, added.long_url),
        !holds_locator(recs, added.locator),
    ensures
        records_unique(recs.push(added)),
{
    let after = recs.push(added);
    assert forall|i: int, j: int|
        0 <= i < after.len() && 0 <= j < after.len() && i != j implies after[i].long_url
        != after[j].long_url && after[i].locator != after[j].locator by {
        if i == recs.len() {
            assert(after[j] == recs[j]);
            assert(recs[j].long_url != added.long_url);
            assert(recs[j].locator != added.locator);
        } else if j == recs.len() {
            assert(after[i] == recs[i]);
            assert(recs[i].long_url != added.long_url);
            assert(recs[i].locator != added.locator);
        } else {
            assert(after[i] == recs[i] && after[j] == recs[j]);
        }
    }
}

/// Resolving a long URL keeps every long URL and every locator stored at
/// most once.
pub proof fn lemma_resolve_keeps_records_unique(
    recs: Seq<RecordView>,
    long_url: Seq<char>,
    candidate: Seq<char>,
    created_at: Seq<char>,
)
    requires
        records_unique(recs),
    ensures
        records_unique(resolve_outcome(recs, long_url, candidate, created_at).0),
{
    if !holds_url(recs, long_url) && !holds_locator(recs, candidate) {
        lemma_push_keeps_records_unique(
            recs,
            RecordView { created_at, long_url, locator: candidate },
        );
    }
}

/// Once a long URL has been resolved, the store finds it under the locator
/// that was handed out.
pub proof fn lemma_resolved_url_is_found(
    recs: Seq<RecordView>,
    long_url: Seq<char>,
    candidate: Seq<char>,
    created_at: Seq<char>,
)
    requires
        records_unique(recs),
        resolve_outcome(recs, long_url, candidate, created_at).1 is Ok,
    ensures
        find_result(resolve_outcome(recs, long_url, candidate, created_at).0, long_url) == Some(
            resolve_outcome(recs, long_url, candidate, created_at).1->Ok_0.0,
        ),
{
    if !holds_url(recs, long_url) {
        let after = recs.push(RecordView { created_at, long_url, locator: candidate });
        let n = recs.len() as int;
        assert(after[n].long_url == long_url);
        let j = choose|j: int| 0 <= j < after.len() && #[trigger] after[j].long_url == long_url;
        if j < n {
            assert(recs[j].long_url == long_url);
        }
    }
}

/// A locator handed out for a long URL leads back to that URL.
pub proof fn lemma_resolve_then_lookup(
    recs: Seq<RecordView>,
    long_url: Seq<char>,
    candidate: Seq<char>,
    created_at: Seq<char>,
)
    requires
        records_unique(recs),
        resolve_outcome(recs, long_url, candidate, created_at).1 is Ok,
    ensures
        lookup_result(
            resolve_outcome(recs, long_url, candidate, created_at).0,
            resolve_outcome(recs, long_url, candidate, created_at).1->Ok_0.0,
        ) == Some(long_url),
{
    if holds_url(recs, long_url) {
        let i = choose|i: int| 0 <= i < recs.len() && #[trigger] recs[i].long_url == long_url;
        let l = recs[i].locator;
        assert(recs[i].locator == l);
        let j = choose|j: int| 0 <= j < recs.len() && #[trigger] recs[j].locator == l;
        assert(recs[i] == recs[i] && recs[j] == recs[j]);
    } else {
        let after = recs.push(RecordView { created_at, long_url, locator: candidate });
        let n = recs.len() as int;
        assert(after[n].locator == candidate);
        let j = choose|j: int| 0 <= j < after.len() && #[trigger] after[j].locator == candidate;
        if j < n {
            assert(recs[j].locator == candidate);
        }
    }
}

/// Resolving the same long URL twice hands out the same locator both
/// times; the second call finds the record and changes nothing. The first
/// call reports `Created` exactly when the URL was not stored before. When
/// the first call meets a locator conflict, the second meets it too.
pub proof fn lemma_resolve_twice(
    recs: Seq<RecordView>,
    long_url: Seq<char>,
    candidate: Seq<char>,
    first_at: Seq<char>,
    second_at: Seq<char>,
)
    requires
        records_unique(recs),
    ensures
        ({
            let (s1, o1) = resolve_outcome(recs, long_url, candidate, first_at);
            let (s2, o2) = resolve_outcome(s1, long_url, candidate, second_at);
            &&& o1 is Ok ==> o2 == Ok::<(Seq<char>, Status), StoreError>(
                (o1->Ok_0.0, Status::Existing),
            ) && s2 == s1
            &&& o1 is Ok ==> (o1->Ok_0.1 == Status::Created <==> !holds_url(recs, long_url))
            &&& o1 is Err ==> o2 == o1 && s2 == recs
        }),
{
    let (s1, o1) = resolve_outcome(recs, long_url, candidate, first_at);
    if o1 is Ok {
        lemma_resolved_url_is_found(recs, long_url, candidate, first_at);
    }
}

proof fn lemma_callers_upto(
    states: Seq<Seq<RecordView>>,
    outs: Seq<Result<(Seq<char>, Status), StoreError>>,
    times: Seq<Seq<char>>,
    long_url: Seq<char>,
    candidate: Seq<char>,
    k: int,
)
    requires
        outs.len() > 0,
        states.len() == outs.len() + 1,
        times.len() == outs.len(),
        records_unique(states[0]),
        !holds_url(states[0], long_url),
        forall|m: int|
            0 <= m < outs.len() ==> #[trigger] resolve_outcome(
                states[m],
                long_url,
                candidate,
                times[m],
            ) == (states[m + 1], outs[m]),
        1 <= k <= outs.len(),
    ensures
        records_unique(states[k]),
        outs[0] is Ok ==> outs[0] == Ok::<(Seq<char>, Status), StoreError>(
            (candidate, Status::Created),
        ) && find_result(states[k], long_url) == Some(candidate) && forall|j: int|
            1 <= j < k ==> outs[j] == Ok::<(Seq<char>, Status), StoreError>(
                (candidate, Status::Existing),
            ),
        outs[0] is Err ==> states[k] == states[0] && forall|j: int|
            0 <= j < k ==> outs[j] == Err::<(Seq<char>, Status), StoreError>(
                StoreError::LocatorTaken,
            ),
    decreases k,
{
    assert(resolve_outcome(states[0], long_url, candidate, times[0]) == (states[1], outs[0]));
    lemma_resolve_keeps_records_unique(states[0], long_url, candidate, times[0]);
    if outs[0] is Ok {
        lemma_resolved_url_is_found(states[0], long_url, candidate, times[0]);
    }
    if k > 1 {
        lemma_callers_upto(states, outs, times, long_url, candidate, k - 1);
        let p = k - 1;
        assert(resolve_outcome(states[p], long_url, candidate, times[p]) == (states[p + 1], outs[p]));
        lemma_resolve_keeps_records_unique(states[p], long_url, candidate, times[p]);
        if outs[0] is Ok {
            assert(holds_url(states[p], long_url));
        }
    }
}

/// Callers that resolve the same new long URL one after another, each
/// holding the store alone while it checks and inserts, leave exactly one
/// record for it: the first caller creates it, every later caller finds it
/// under the same locator. When the first caller meets a locator conflict,
/// every caller meets it and nothing is stored for the URL.
pub proof fn lemma_serialized_callers(
    states: Seq<Seq<RecordView>>,
    outs: Seq<Result<(Seq<char>, Status), StoreError>>,
    times: Seq<Seq<char>>,
    long_url: Seq<char>,
    candidate: Seq<char>,
)
    requires
        outs.len() > 0,
        states.len() == outs.len() + 1,
        times.len() == outs.len(),
        records_unique(states[0]),
        !holds_url(states[0], long_url),
        forall|m: int|
            0 <= m < outs.len() ==> #[trigger] resolve_outcome(
                states[m],
                long_url,
                candidate,
                times[m],
            ) == (states[m + 1], outs[m]),
    ensures
        outs[0] is Ok ==> {
            &&& outs[0] == Ok::<(Seq<char>, Status), StoreError>((candidate, Status::Created))
            &&& forall|j: int|
                1 <= j < outs.len() ==> outs[j] == Ok::<(Seq<char>, Status), StoreError>(
                    (candidate, Status::Existing),
                )
            &&& exactly_one_record(states[outs.len() as int], long_url)
        },
        outs[0] is Err ==> {
            &&& forall|j: int|
                0 <= j < outs.len() ==> outs[j] == Err::<(Seq<char>, Status), StoreError>(
                    StoreError::LocatorTaken,
                )
            &&& !holds_url(states[outs.len() as int], long_url)
        },
{
    let n = outs.len() as int;
    lemma_callers_upto(states, outs, times, long_url, candidate, n);
    if outs[0] is Ok {
        let last = states[n];
        let i = choose|i: int| 0 <= i < last.len() && #[trigger] last[i].long_url == long_url;
        assert forall|j: int| 0 <= j < last.len() && #[trigger] last[j].long_url == long_url implies j
            == i by {
            assert(last[i] == last[i] && last[j] == last[j]);
        }
    }
}

} // verus!
