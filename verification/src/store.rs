//! Append-only versioned record store.
//!
//! Every entity lives in one `VersionedEntityStore`: a log of records with
//! strictly increasing identifiers.  No record is ever updated or deleted; the
//! "current" state for a grouping key is the record with the greatest
//! identifier sharing that key, recomputed from the log on every read.

use vstd::prelude::*;

verus! {

/// Grouping key of a record.  Components that an entity does not group by are
/// zero (for example, a tournament-wide entity uses only `tournament_id`).
#[derive(Clone, Copy, PartialEq, Eq, Structural, Debug)]
pub struct GroupKey {
    pub tournament_id: i64,
    pub user_id: i64,
    pub year: i64,
}

/// One appended row: bookkeeping columns plus the entity payload.
#[derive(Clone, Copy, Debug)]
pub struct Record<P> {
    pub id: i64,
    pub creation_time: i64,
    pub creator_user_id: i64,
    pub key: GroupKey,
    pub payload: P,
}

/// The storage-layer fault: the identifier space of a table is exhausted, so
/// no further row can be assigned a fresh identifier.
#[derive(Clone, Copy, PartialEq, Eq, Structural, Debug)]
pub enum StoreError {
    IdSpaceExhausted,
}

/// An append-only log for one entity type.  `next_id` is the identifier the
/// next appended record receives.
#[verifier::ext_equal]
pub struct VersionedEntityStore<P> {
    pub rows: Vec<Record<P>>,
    pub next_id: i64,
}

/// The record with the greatest identifier whose key equals `key`, if any.
/// Under `VersionedEntityStore::wf` identifiers increase along the log, so
/// this is the last matching record.
pub open spec fn latest_for_key<P>(rows: Seq<Record<P>>, key: GroupKey) -> Option<Record<P>>
    decreases rows.len(),
{
    if rows.len() == 0 {
        None
    } else if rows.last().key == key {
        Some(rows.last())
    } else {
        latest_for_key(rows.drop_last(), key)
    }
}

/// The record at index `i` is the current version for its key: no later
/// record shares its key.
pub open spec fn is_current_at<P>(rows: Seq<Record<P>>, i: int) -> bool {
    forall|j: int| i < j < rows.len() ==> (#[trigger] rows[j]).key != rows[i].key
}

impl<P> VersionedEntityStore<P> {
    /// Well-formedness: identifiers are non-negative, strictly increasing
    /// along the log, and all below `next_id`.
    pub open spec fn wf(self) -> bool {
        &&& 0 <= self.next_id
        &&& forall|i: int|
            0 <= i < self.rows@.len() ==> 0 <= (#[trigger] self.rows@[i]).id < self.next_id
        &&& forall|i: int, j: int|
            0 <= i < j < self.rows@.len() ==> (#[trigger] self.rows@[i]).id < (
            #[trigger] self.rows@[j]).id
    }

    pub fn new() -> (r: Self)
        ensures
            r.wf(),
            r.rows@ =~= Seq::<Record<P>>::empty(),
            r.next_id == 0,
    {
        VersionedEntityStore { rows: Vec::new(), next_id: 0 }
    }

    /// Appends a record, assigning the next identifier; fails only when the
    /// identifier space is exhausted, and then leaves the log unchanged.
    pub fn append(&mut self, creator_user_id: i64, creation_time: i64, key: GroupKey, payload: P)
        -> (r: Result<i64, StoreError>)
        requires
            old(self).wf(),
        ensures
            final(self).wf(),
            old(self).next_id == i64::MAX ==> r is Err && *final(self) == *old(self),
            old(self).next_id < i64::MAX ==> {
                &&& r == Ok::<i64, StoreError>(old(self).next_id)
                &&& final(self).next_id == old(self).next_id + 1
                &&& final(self).rows@ == old(self).rows@.push(
                    Record {
                        id: old(self).next_id,
                        creation_time,
                        creator_user_id,
                        key,
                        payload,
                    },
                )
            },
    {
        if self.next_id == i64::MAX {
            return Err(StoreError::IdSpaceExhausted);
        }
        let id = self.next_id;
        let rec = Record { id, creation_time, creator_user_id, key, payload };
        self.rows.push(rec);
        self.next_id = id + 1;
        Ok(id)
    }

    /// Index of the current version for `key`, or `None` when no record has
    /// that key.
    pub fn current_index(&self, key: GroupKey) -> (r: Option<usize>)
        ensures
            match r {
                Some(i) => {
                    &&& i < self.rows@.len()
                    &&& self.rows@[i as int].key == key
                    &&& is_current_at(self.rows@, i as int)
                    &&& latest_for_key(self.rows@, key) == Some(self.rows@[i as int])
                },
                None => latest_for_key(self.rows@, key) is None,
            },
    {
        let n = self.rows.len();
        let mut j = n;
        while j > 0
            invariant
                j <= n,
                n == self.rows@.len(),
                forall|k: int| j <= k < n ==> (#[trigger] self.rows@[k]).key != key,
            decreases j,
        {
            j = j - 1;
            if self.rows[j].key == key {
                proof {
                    lemma_latest_at(self.rows@, key, j as int);
                }
                return Some(j);
            }
        }
        proof {
            lemma_latest_none(self.rows@, key);
        }
        None
    }

    /// Whether the record at index `i` is the current version for its key.
    pub fn is_current(&self, i: usize) -> (r: bool)
        requires
            i < self.rows@.len(),
        ensures
            r == is_current_at(self.rows@, i as int),
    {
        let n = self.rows.len();
        let key = self.rows[i].key;
        let mut j = i + 1;
        while j < n
            invariant
                i < j <= n,
                n == self.rows@.len(),
                key == self.rows@[i as int].key,
                forall|k: int| i < k < j ==> (#[trigger] self.rows@[k]).key != key,
            decreases n - j,
        {
            if self.rows[j].key == key {
                return false;
            }
            j = j + 1;
        }
        true
    }
}

/// Whether an identifier occurs in an identifier-set filter.
pub fn contains_i64(v: &Vec<i64>, x: i64) -> (r: bool)
    ensures
        r == v@.contains(x),
{
    let n = v.len();
    let mut i: usize = 0;
    while i < n
        invariant
            i <= n,
            n == v@.len(),
            forall|j: int| 0 <= j < i ==> v@[j] != x,
        decreases n - i,
    {
        if v[i] == x {
            assert(v@[i as int] == x);
            return true;
        }
        i = i + 1;
    }
    false
}

proof fn lemma_id_ge_index<P>(rows: Seq<Record<P>>, i: int)
    requires
        0 <= i < rows.len(),
        forall|k: int| 0 <= k < rows.len() ==> 0 <= (#[trigger] rows[k]).id,
        forall|j: int, k: int|
            0 <= j < k < rows.len() ==> (#[trigger] rows[j]).id < (#[trigger] rows[k]).id,
    ensures
        rows[i].id >= i,
    decreases i,
{
    if i > 0 {
        lemma_id_ge_index(rows, i - 1);
        assert(rows[i - 1].id < rows[i].id);
    }
}

/// A log's length never exceeds `next_id`: identifiers are non-negative and
/// strictly increasing, so the log cannot hold more rows than identifiers
/// below `next_id`.
pub proof fn lemma_len_le_next<P>(s: VersionedEntityStore<P>)
    requires
        s.wf(),
    ensures
        s.rows@.len() <= s.next_id,
{
    if s.rows@.len() > 0 {
        lemma_id_ge_index(s.rows@, s.rows@.len() - 1);
    }
}

/// If the record at `i` has key `key` and no later record does, it is the
/// latest record for `key`.
pub proof fn lemma_latest_at<P>(rows: Seq<Record<P>>, key: GroupKey, i: int)
    requires
        0 <= i < rows.len(),
        rows[i].key == key,
        forall|j: int| i < j < rows.len() ==> (#[trigger] rows[j]).key != key,
    ensures
        latest_for_key(rows, key) == Some(rows[i]),
    decreases rows.len(),
{
    if i == rows.len() - 1 {
    } else {
        lemma_latest_at(rows.drop_last(), key, i);
    }
}

/// If no record has key `key`, there is no latest record for it.
pub proof fn lemma_latest_none<P>(rows: Seq<Record<P>>, key: GroupKey)
    requires
        forall|j: int| 0 <= j < rows.len() ==> (#[trigger] rows[j]).key != key,
    ensures
        latest_for_key(rows, key) is None,
    decreases rows.len(),
{
    if rows.len() > 0 {
        lemma_latest_none(rows.drop_last(), key);
    }
}

/// The latest record for a key, when it exists, occurs in the log, carries
/// that key, and is current at its position.
pub proof fn lemma_latest_occurs<P>(rows: Seq<Record<P>>, key: GroupKey)
    requires
        latest_for_key(rows, key) is Some,
    ensures
        exists|i: int|
            {
                &&& 0 <= i < rows.len()
                &&& rows[i] == latest_for_key(rows, key)->Some_0
                &&& rows[i].key == key
                &&& is_current_at(rows, i)
            },
    decreases rows.len(),
{
    if rows.last().key == key {
        assert(rows[rows.len() - 1] == latest_for_key(rows, key)->Some_0);
    } else {
        lemma_latest_occurs(rows.drop_last(), key);
        let i = choose|i: int|
            {
                &&& 0 <= i < rows.drop_last().len()
                &&& rows.drop_last()[i] == latest_for_key(rows.drop_last(), key)->Some_0
                &&& rows.drop_last()[i].key == key
                &&& is_current_at(rows.drop_last(), i)
            };
        assert(rows[i] == latest_for_key(rows, key)->Some_0);
        assert forall|j: int| i < j < rows.len() implies (#[trigger] rows[j]).key != rows[i].key by {
            if j < rows.len() - 1 {
                assert(rows.drop_last()[j] == rows[j]);
                assert(rows.drop_last()[i] == rows[i]);
                assert(rows.drop_last()[j].key != rows.drop_last()[i].key);
            }
        }
    }
}

/// The "current version" rule: in a well-ordered log the latest record for a
/// key has the greatest identifier among all records sharing that key.
pub proof fn lemma_latest_is_greatest_id<P>(s: VersionedEntityStore<P>, key: GroupKey)
    requires
        s.wf(),
        latest_for_key(s.rows@, key) is Some,
    ensures
        forall|j: int|
            0 <= j < s.rows@.len() && (#[trigger] s.rows@[j]).key == key ==> s.rows@[j].id
                <= latest_for_key(s.rows@, key)->Some_0.id,
{
    lemma_latest_occurs(s.rows@, key);
    let i = choose|i: int|
        {
            &&& 0 <= i < s.rows@.len()
            &&& s.rows@[i] == latest_for_key(s.rows@, key)->Some_0
            &&& s.rows@[i].key == key
            &&& is_current_at(s.rows@, i)
        };
    assert forall|j: int|
        0 <= j < s.rows@.len() && (#[trigger] s.rows@[j]).key == key implies s.rows@[j].id
        <= latest_for_key(s.rows@, key)->Some_0.id by {
        if j > i {
            assert(s.rows@[j].key != s.rows@[i].key);
        }
    }
}

/// Appending records never disturbs the latest record for a key none of them
/// carries, and makes the last appended record with a key the latest for it.
pub proof fn lemma_latest_append<P>(a: Seq<Record<P>>, b: Seq<Record<P>>, key: GroupKey)
    ensures
        (forall|j: int| 0 <= j < b.len() ==> (#[trigger] b[j]).key != key) ==> latest_for_key(
            a + b,
            key,
        ) == latest_for_key(a, key),
    decreases b.len(),
{
    if b.len() == 0 {
        assert(a + b =~= a);
    } else {
        lemma_latest_append(a, b.drop_last(), key);
        if forall|j: int| 0 <= j < b.len() ==> (#[trigger] b[j]).key != key {
            assert((a + b).last() == b.last());
            assert((a + b).drop_last() =~= a + b.drop_last());
        }
    }
}

} // verus!
