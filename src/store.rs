//! The locator store: the authoritative mapping between long URLs and their
//! locators. Every long URL is stored at most once and every locator names at
//! most one long URL; records are only ever added.

use vstd::prelude::*;
use crate::laws::lemma_push_keeps_records_unique;
use crate::locator::{candidate_locator, derive_locator};

verus! {

/// One stored mapping.
pub struct UrlRecord {
    /// When the record was first inserted (RFC 3339 text).
    pub created_at: String,
    pub long_url: String,
    pub locator: String,
}

/// The text of a record.
pub struct RecordView {
    pub created_at: Seq<char>,
    pub long_url: Seq<char>,
    pub locator: Seq<char>,
}

impl View for UrlRecord {
    type V = RecordView;

    open spec fn view(&self) -> RecordView {
        RecordView {
            created_at: self.created_at@,
            long_url: self.long_url@,
            locator: self.locator@,
        }
    }
}

/// Whether a shorten request found an existing record or made a new one.
#[derive(Clone, Copy, Debug, PartialEq, Eq, Structural)]
pub enum Status {
    Created,
    Existing,
}

/// Why an insertion was refused.
#[derive(Clone, Copy, Debug, PartialEq, Eq, Structural)]
pub enum StoreError {
    /// The long URL is stored already.
    UrlTaken,
    /// The locator already names a different long URL: two URLs whose
    /// digests share the locator's prefix.
    LocatorTaken,
}

/// The locator handed out for a long URL, and how it was obtained.
pub struct Shortened {
    pub locator: String,
    pub status: Status,
}

/// No two records share a long URL, and no two share a locator.
pub open spec fn records_unique(recs: Seq<RecordView>) -> bool {
    forall|i: int, j: int|
        #![trigger recs[i], recs[j]]
        0 <= i < recs.len() && 0 <= j < recs.len() && i != j ==> recs[i].long_url != recs[j].long_url
            && recs[i].locator != recs[j].locator
}

/// Some record holds the long URL.
pub open spec fn holds_url(recs: Seq<RecordView>, long_url: Seq<char>) -> bool {
    exists|i: int| 0 <= i < recs.len() && #[trigger] recs[i].long_url == long_url
}

/// Some record holds the locator.
pub open spec fn holds_locator(recs: Seq<RecordView>, locator: Seq<char>) -> bool {
    exists|i: int| 0 <= i < recs.len() && #[trigger] recs[i].locator == locator
}

/// The locator stored for a long URL, if any.
pub open spec fn find_result(recs: Seq<RecordView>, long_url: Seq<char>) -> Option<Seq<char>> {
    if holds_url(recs, long_url) {
        let i = choose|i: int| 0 <= i < recs.len() && #[trigger] recs[i].long_url == long_url;
        Some(recs[i].locator)
    } else {
        None
    }
}

/// The long URL that a locator names, if any.
pub open spec fn lookup_result(recs: Seq<RecordView>, locator: Seq<char>) -> Option<Seq<char>> {
    if holds_locator(recs, locator) {
        let i = choose|i: int| 0 <= i < recs.len() && #[trigger] recs[i].locator == locator;
        Some(recs[i].long_url)
    } else {
        None
    }
}

/// The records after an insertion, and its result.
pub open spec fn insert_outcome(
    recs: Seq<RecordView>,
    created_at: Seq<char>,
    long_url: Seq<char>,
    locator: Seq<char>,
) -> (Seq<RecordView>, Result<(), StoreError>) {
    if holds_url(recs, long_url) {
        (recs, Err(StoreError::UrlTaken))
    } else if holds_locator(recs, locator) {
        (recs, Err(StoreError::LocatorTaken))
    } else {
        (recs.push(RecordView { created_at, long_url, locator }), Ok(()))
    }
}

/// The records after a resolve-or-create with the given candidate locator
/// and creation time, and its result: the stored locator when the long URL
/// is known, else the candidate when it is free, else a locator conflict.
pub open spec fn resolve_outcome(
    recs: Seq<RecordView>,
    long_url: Seq<char>,
    candidate: Seq<char>,
    created_at: Seq<char>,
) -> (Seq<RecordView>, Result<(Seq<char>, Status), StoreError>) {
    if holds_url(recs, long_url) {
        (recs, Ok((find_result(recs, long_url)->Some_0, Status::Existing)))
    } else if holds_locator(recs, candidate) {
        (recs, Err(StoreError::LocatorTaken))
    } else {
        (
            recs.push(RecordView { created_at, long_url, locator: candidate }),
            Ok((candidate, Status::Created)),
        )
    }
}

/// The text of an optional string.
pub open spec fn text_of(o: Option<String>) -> Option<Seq<char>> {
    match o {
        Some(s) => Some(s@),
        None => None,
    }
}

/// The locator and status of a resolve result, as text.
pub open spec fn outcome_of(r: Result<Shortened, StoreError>) -> Result<(Seq<char>, Status), StoreError> {
    match r {
        Ok(s) => Ok((s.locator@, s.status)),
        Err(e) => Err(e),
    }
}

/// Relies on `chrono::Local::now` and `DateTime::to_rfc3339`: the current
/// local time as text. Nothing is promised of the value.
#[verifier::external_body]
fn now_rfc3339() -> (r: String) {
    chrono::Local::now().to_rfc3339()
}

/// The mapping between long URLs and locators.
pub struct LocatorStore {
    records: Vec<UrlRecord>,
}

impl View for LocatorStore {
    type V = Seq<RecordView>;

    closed spec fn view(&self) -> Seq<RecordView> {
        self.records@.map_values(|r: UrlRecord| r@)
    }
}

impl LocatorStore {
    #[verifier::type_invariant]
    spec fn inv(self) -> bool {
        records_unique(self@)
    }

    /// An empty store.
    pub fn new() -> (s: Self)
        ensures
            s@ == Seq::<RecordView>::empty(),
    {
        let s = LocatorStore { records: Vec::new() };
        assert(s@ =~= Seq::<RecordView>::empty());
        s
    }

    /// The number of records.
    pub fn len(&self) -> (r: usize)
        ensures
            r == self@.len(),
    {
        self.records.len()
    }

    /// The record at an index, in the order of insertion.
    pub fn record(&self, index: usize) -> (r: Option<&UrlRecord>)
        ensures
            index < self@.len() ==> r is Some && r->Some_0@ == self@[index as int],
            index >= self@.len() ==> r is None,
    {
        if index < self.records.len() {
            Some(&self.records[index])
        } else {
            None
        }
    }

    /// The locator stored for a long URL (exact, case-sensitive match).
    pub fn find_locator(&self, long_url: &str) -> (r: Option<String>)
        ensures
            text_of(r) == find_result(self@, long_url@),
    {
        proof {
            use_type_invariant(&*self);
        }
        let key = long_url.to_owned();
        let mut i: usize = 0;
        while i < self.records.len()
            invariant
                0 <= i <= self.records@.len(),
                self@.len() == self.records@.len(),
                records_unique(self@),
                key@ == long_url@,
                forall|k: int| 0 <= k < i ==> #[trigger] self@[k].long_url != key@,
            decreases self.records@.len() - i,
        {
            if self.records[i].long_url == key {
                let l = self.records[i].locator.clone();
                proof {
                    let recs = self@;
                    assert(recs[i as int].long_url == long_url@);
                    let j = choose|j: int| 0 <= j < recs.len() && #[trigger] recs[j].long_url == long_url@;
                    assert(recs[i as int] == recs[i as int] && recs[j] == recs[j]);
                    assert(j == i);
                }
                return Some(l);
            }
            assert(self@[i as int].long_url != key@);
            i += 1;
        }
        None
    }

    /// The long URL that a locator names (exact, case-sensitive match).
    /// An unknown locator gives `None`.
    pub fn lookup(&self, locator: &str) -> (r: Option<String>)
        ensures
            text_of(r) == lookup_result(self@, locator@),
    {
        proof {
            use_type_invariant(&*self);
        }
        let key = locator.to_owned();
        let mut i: usize = 0;
        while i < self.records.len()
            invariant
                0 <= i <= self.records@.len(),
                self@.len() == self.records@.len(),
                records_unique(self@),
                key@ == locator@,
                forall|k: int| 0 <= k < i ==> #[trigger] self@[k].locator != key@,
            decreases self.records@.len() - i,
        {
            if self.records[i].locator == key {
                let u = self.records[i].long_url.clone();
                proof {
                    let recs = self@;
                    assert(recs[i as int].locator == locator@);
                    let j = choose|j: int| 0 <= j < recs.len() && #[trigger] recs[j].locator == locator@;
                    assert(recs[i as int] == recs[i as int] && recs[j] == recs[j]);
                    assert(j == i);
                }
                return Some(u);
            }
            assert(self@[i as int].locator != key@);
            i += 1;
        }
        None
    }

    /// Inserts a record, refusing a long URL that is stored already and a
    /// locator that already names another URL. Storage keeps both columns
    /// unique.
    pub fn insert_record(&mut self, created_at: String, long_url: String, locator: String) -> (r:
        Result<(), StoreError>)
        ensures
            (final(self)@, r) == insert_outcome(old(self)@, created_at@, long_url@, locator@),
            records_unique(final(self)@),
    {
        proof {
            use_type_invariant(&*self);
        }
        if self.find_locator(long_url.as_str()).is_some() {
            return Err(StoreError::UrlTaken);
        }
        if self.lookup(locator.as_str()).is_some() {
            return Err(StoreError::LocatorTaken);
        }
        let ghost before = self@;
        let ghost added = RecordView { created_at: created_at@, long_url: long_url@, locator: locator@ };
        let mut recs: Vec<UrlRecord> = Vec::new();
        std::mem::swap(&mut recs, &mut self.records);
        assert(recs@.map_values(|r: UrlRecord| r@) == before);
        recs.push(UrlRecord { created_at, long_url, locator });
        proof {
            assert(recs@.map_values(|r: UrlRecord| r@) =~= before.push(added));
            lemma_push_keeps_records_unique(before, added);
        }
        self.records = recs;
        Ok(())
    }

    /// Returns the locator stored for `long_url`, or stores `candidate` for it
    /// with the given creation time. Fails, storing nothing, when the URL is
    /// new and `candidate` already names another URL.
    pub fn resolve_with_candidate(&mut self, long_url: &str, candidate: String, created_at: String) -> (r:
        Result<Shortened, StoreError>)
        ensures
            (final(self)@, outcome_of(r)) == resolve_outcome(
                old(self)@,
                long_url@,
                candidate@,
                created_at@,
            ),
            records_unique(final(self)@),
    {
        proof {
            use_type_invariant(&*self);
        }
        match self.find_locator(long_url) {
            Some(l) => Ok(Shortened { locator: l, status: Status::Existing }),
            None => {
                let handed_out = candidate.clone();
                match self.insert_record(created_at, long_url.to_owned(), candidate) {
                    Ok(()) => Ok(Shortened { locator: handed_out, status: Status::Created }),
                    Err(e) => Err(e),
                }
            },
        }
    }

    /// Returns the locator stored for `long_url`, or derives its candidate
    /// locator and stores it, stamped with the current time. Fails, storing
    /// nothing, when the URL is new and its candidate already names another
    /// URL. The check and the insertion happen under the one `&mut` borrow,
    /// so no other caller can come between them.
    pub fn resolve_or_create(&mut self, long_url: &str) -> (r: Result<Shortened, StoreError>)
        ensures
            exists|created_at: Seq<char>|
                (final(self)@, outcome_of(r)) == #[trigger] resolve_outcome(
                    old(self)@,
                    long_url@,
                    candidate_locator(long_url@),
                    created_at,
                ),
            records_unique(final(self)@),
    {
        let candidate = derive_locator(long_url);
        let created_at = now_rfc3339();
        self.resolve_with_candidate(long_url, candidate, created_at)
    }
}

} // verus!
