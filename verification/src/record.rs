use vstd::prelude::*;

use crate::clock;
use crate::errors::NinetyTwoError;

verus! {

/// One stored slug/URL row. Timestamps are whole seconds since the Unix
/// epoch; `last_used_at` stays `None` until the slug is first resolved.
pub struct Record {
    pub id: i32,
    pub slug: String,
    pub url: String,
    pub created_at: i64,
    pub last_used_at: Option<i64>,
}

impl Clone for Record {
    fn clone(&self) -> (r: Self)
        ensures
            r == *self,
    {
        Record {
            id: self.id,
            slug: self.slug.clone(),
            url: self.url.clone(),
            created_at: self.created_at,
            last_used_at: self.last_used_at,
        }
    }
}

/// The decoded body of a create request.
pub struct RecordJSON {
    pub slug: String,
    pub url: String,
    pub overwrite: bool,
}

/// The record table: its rows, and the id the next insert receives.
pub struct RecordStore {
    pub records: Vec<Record>,
    pub next_id: i32,
}

/// No row of `s` carries `slug`.
pub open spec fn slug_free(s: Seq<Record>, slug: Seq<char>) -> bool {
    forall|i: int| 0 <= i < s.len() ==> (#[trigger] s[i]).slug@ != slug
}

/// No two rows of `s` carry the same slug.
pub open spec fn slugs_unique(s: Seq<Record>) -> bool {
    forall|i: int, j: int|
        0 <= i < j < s.len() ==> (#[trigger] s[i]).slug@ != (#[trigger] s[j]).slug@
}

/// No two rows of `s` carry the same id.
pub open spec fn ids_unique(s: Seq<Record>) -> bool {
    forall|i: int, j: int| 0 <= i < j < s.len() ==> (#[trigger] s[i]).id != (#[trigger] s[j]).id
}

/// `r` with its `last_used_at` set to `now`.
pub open spec fn touched(r: Record, now: i64) -> Record {
    Record { last_used_at: Some(now), ..r }
}

/// Rows that keep their ids and slugs keep both keys unique.
pub(crate) proof fn lemma_same_keys_unique(s0: Seq<Record>, s1: Seq<Record>)
    requires
        s1.len() == s0.len(),
        forall|k: int| 0 <= k < s0.len() ==> (#[trigger] s1[k]).id == s0[k].id,
        forall|k: int| 0 <= k < s0.len() ==> (#[trigger] s1[k]).slug@ == s0[k].slug@,
        ids_unique(s0),
        slugs_unique(s0),
    ensures
        ids_unique(s1),
        slugs_unique(s1),
{
    assert forall|a: int, b: int| 0 <= a < b < s1.len() implies (#[trigger] s1[a]).id != (
    #[trigger] s1[b]).id by {
        assert(s0[a].id != s0[b].id);
    }
    assert forall|a: int, b: int| 0 <= a < b < s1.len() implies (#[trigger] s1[a]).slug@ != (
    #[trigger] s1[b]).slug@ by {
        assert(s0[a].slug@ != s0[b].slug@);
    }
}

/// Appending a row whose id and slug no earlier row carries keeps both
/// keys unique.
pub(crate) proof fn lemma_push_fresh(s0: Seq<Record>, rec: Record)
    requires
        ids_unique(s0),
        slugs_unique(s0),
        slug_free(s0, rec.slug@),
        forall|k: int| 0 <= k < s0.len() ==> (#[trigger] s0[k]).id != rec.id,
    ensures
        ids_unique(s0.push(rec)),
        slugs_unique(s0.push(rec)),
{
    let s1 = s0.push(rec);
    assert forall|a: int, b: int| 0 <= a < b < s1.len() implies (#[trigger] s1[a]).id != (
    #[trigger] s1[b]).id by {
        if b < s0.len() {
            assert(s0[a].id != s0[b].id);
        } else {
            assert(s1[b] == rec && s1[a] == s0[a]);
        }
    }
    assert forall|a: int, b: int| 0 <= a < b < s1.len() implies (#[trigger] s1[a]).slug@ != (
    #[trigger] s1[b]).slug@ by {
        if b < s0.len() {
            assert(s0[a].slug@ != s0[b].slug@);
        } else {
            assert(s1[b] == rec && s1[a] == s0[a]);
        }
    }
}

impl RecordStore {
    /// Ids and slugs are unique keys, and every id is positive and below
    /// the id of the next insert.
    pub open spec fn wf(&self) -> bool {
        &&& 0 < self.next_id
        &&& ids_unique(self.records@)
        &&& slugs_unique(self.records@)
        &&& forall|i: int|
            0 <= i < self.records@.len() ==> 0 < (#[trigger] self.records@[i]).id < self.next_id
    }

    /// An empty table; the first insert receives id 1.
    pub fn new() -> (s: Self)
        ensures
            s.wf(),
            s.records@.len() == 0,
            s.next_id == 1,
    {
        RecordStore { records: Vec::new(), next_id: 1 }
    }
}

impl Record {
    /// Whether some row carries `slug`.
    fn slug_exists(slug: &String, store: &RecordStore) -> (b: bool)
        ensures
            b == !slug_free(store.records@, slug@),
    {
        let n = store.records.len();
        let mut i: usize = 0;
        while i < n
            invariant
                i <= n,
                n == store.records@.len(),
                forall|k: int| 0 <= k < i ==> (#[trigger] store.records@[k]).slug@ != slug@,
            decreases n - i,
        {
            if store.records[i].slug == *slug {
                return true;
            }
            i += 1;
        }
        false
    }

    /// Insert a new row for `json.slug` with `now` as its creation time.
    /// A row that already carries the slug makes the insert a conflict,
    /// which leaves the store unchanged.
    pub fn create_at(json: &RecordJSON, store: &mut RecordStore, now: i64) -> (r: Result<
        Record,
        NinetyTwoError,
    >)
        requires
            old(store).wf(),
            old(store).next_id < i32::MAX,
        ensures
            final(store).wf(),
            match r {
                Ok(rec) => {
                    &&& slug_free(old(store).records@, json.slug@)
                    &&& rec.id == old(store).next_id
                    &&& rec.slug@ == json.slug@
                    &&& rec.url@ == json.url@
                    &&& rec.created_at == now
                    &&& rec.last_used_at is None
                    &&& final(store).records@ == old(store).records@.push(rec)
                    &&& final(store).next_id == old(store).next_id + 1
                },
                Err(e) => {
                    &&& e == NinetyTwoError::RecordAlreadyExist
                    &&& !slug_free(old(store).records@, json.slug@)
                    &&& *final(store) == *old(store)
                },
            },
    {
        if Self::slug_exists(&json.slug, store) {
            return Err(NinetyTwoError::RecordAlreadyExist);
        }
        let rec = Record {
            id: store.next_id,
            slug: json.slug.clone(),
            url: json.url.clone(),
            created_at: now,
            last_used_at: None,
        };
        let out = rec.clone();
        store.records.push(rec);
        store.next_id = store.next_id + 1;
        proof {
            let s0 = old(store).records@;
            let s1 = store.records@;
            lemma_push_fresh(s0, out);
            assert forall|k: int| 0 <= k < s1.len() implies 0 < (#[trigger] s1[k]).id
                < store.next_id by {
                if k < s0.len() {
                    assert(0 < s0[k].id < old(store).next_id);
                } else {
                    assert(s1[k] == out);
                }
            }
        }
        Ok(out)
    }

    /// Insert with the current clock as the creation time.
    pub fn create(json: &RecordJSON, store: &mut RecordStore) -> (r: Result<
        Record,
        NinetyTwoError,
    >)
        requires
            old(store).wf(),
            old(store).next_id < i32::MAX,
        ensures
            final(store).wf(),
            match r {
                Ok(rec) => {
                    &&& slug_free(old(store).records@, json.slug@)
                    &&& rec.id == old(store).next_id
                    &&& rec.slug@ == json.slug@
                    &&& rec.url@ == json.url@
                    &&& rec.last_used_at is None
                    &&& final(store).records@ == old(store).records@.push(rec)
                    &&& final(store).next_id == old(store).next_id + 1
                },
                Err(e) => {
                    &&& e == NinetyTwoError::RecordAlreadyExist
                    &&& !slug_free(old(store).records@, json.slug@)
                    &&& *final(store) == *old(store)
                },
            },
    {
        let now = clock::now_epoch_seconds();
        Self::create_at(json, store, now)
    }

    /// Replace the url of the row that carries `json.slug`. `None` means
    /// no row does, and the store is unchanged.
    pub fn update(json: &RecordJSON, store: &mut RecordStore) -> (r: Option<Record>)
        requires
            old(store).wf(),
        ensures
            final(store).wf(),
            final(store).next_id == old(store).next_id,
            match r {
                Some(rec) => exists|i: int|
                    {
                        &&& 0 <= i < old(store).records@.len()
                        &&& (#[trigger] old(store).records@[i]).slug@ == json.slug@
                        &&& rec.id == old(store).records@[i].id
                        &&& rec.slug@ == json.slug@
                        &&& rec.url@ == json.url@
                        &&& rec.created_at == old(store).records@[i].created_at
                        &&& rec.last_used_at == old(store).records@[i].last_used_at
                        &&& final(store).records@ == old(store).records@.update(i, rec)
                    },
                None => {
                    &&& slug_free(old(store).records@, json.slug@)
                    &&& *final(store) == *old(store)
                },
            },
    {
        let n = store.records.len();
        let mut i: usize = 0;
        while i < n
            invariant
                i <= n,
                n == store.records@.len(),
                *store == *old(store),
                old(store).wf(),
                forall|k: int| 0 <= k < i ==> (#[trigger] store.records@[k]).slug@ != json.slug@,
            decreases n - i,
        {
            if store.records[i].slug == json.slug {
                let mut row = store.records[i].clone();
                row.url = json.url.clone();
                let out = row.clone();
                store.records.set(i, row);
                proof {
                    let i0 = i as int;
                    let s0 = old(store).records@;
                    let s1 = store.records@;
                    assert(s1 == s0.update(i0, out));
                    assert(forall|k: int| 0 <= k < s1.len() ==> (#[trigger] s1[k]).slug@
                        == s0[k].slug@);
                    assert(forall|k: int| 0 <= k < s1.len() ==> (#[trigger] s1[k]).id == s0[k].id);
                    lemma_same_keys_unique(s0, s1);
                    assert((#[trigger] s0[i0]).slug@ == json.slug@ && s1 == s0.update(i0, out));
                }
                return Some(out);
            }
            i += 1;
        }
        None
    }

    /// Exact-match lookup: the row that carries `slug`, if any.
    pub fn fetch_by_slug(slug: &String, store: &RecordStore) -> (r: Option<Record>)
        requires
            store.wf(),
        ensures
            match r {
                Some(rec) => store.records@.contains(rec) && rec.slug@ == slug@,
                None => slug_free(store.records@, slug@),
            },
    {
        let n = store.records.len();
        let mut i: usize = 0;
        while i < n
            invariant
                i <= n,
                n == store.records@.len(),
                forall|k: int| 0 <= k < i ==> (#[trigger] store.records@[k]).slug@ != slug@,
            decreases n - i,
        {
            if store.records[i].slug == *slug {
                let out = store.records[i].clone();
                proof {
                    assert(store.records@[i as int] == out);
                }
                return Some(out);
            }
            i += 1;
        }
        None
    }

    /// Set `last_used_at` of the row with the given id to `now`. `None`
    /// means no row has the id, and the store is unchanged.
    pub fn update_last_used_at(id: i32, store: &mut RecordStore, now: i64) -> (r: Option<Record>)
        requires
            old(store).wf(),
        ensures
            final(store).wf(),
            final(store).next_id == old(store).next_id,
            match r {
                Some(rec) => exists|i: int|
                    {
                        &&& 0 <= i < old(store).records@.len()
                        &&& (#[trigger] old(store).records@[i]).id == id
                        &&& rec == touched(old(store).records@[i], now)
                        &&& final(store).records@ == old(store).records@.update(i, rec)
                    },
                None => {
                    &&& (forall|i: int|
                        0 <= i < old(store).records@.len() ==> (
                        #[trigger] old(store).records@[i]).id != id)
                    &&& *final(store) == *old(store)
                },
            },
    {
        let n = store.records.len();
        let mut i: usize = 0;
        while i < n
            invariant
                i <= n,
                n == store.records@.len(),
                *store == *old(store),
                old(store).wf(),
                forall|k: int| 0 <= k < i ==> (#[trigger] store.records@[k]).id != id,
            decreases n - i,
        {
            if store.records[i].id == id {
                let mut row = store.records[i].clone();
                row.last_used_at = Some(now);
                let out = row.clone();
                store.records.set(i, row);
                proof {
                    let i0 = i as int;
                    let s0 = old(store).records@;
                    let s1 = store.records@;
                    assert(out == touched(s0[i0], now));
                    assert(s1 == s0.update(i0, out));
                    assert(forall|k: int| 0 <= k < s1.len() ==> (#[trigger] s1[k]).slug@
                        == s0[k].slug@);
                    assert(forall|k: int| 0 <= k < s1.len() ==> (#[trigger] s1[k]).id == s0[k].id);
                    lemma_same_keys_unique(s0, s1);
                    assert((#[trigger] s0[i0]).id == id && s1 == s0.update(i0, out));
                }
                return Some(out);
            }
            i += 1;
        }
        None
    }

    /// Set `last_used_at` of the row with the given id to the current
    /// clock reading.
    pub fn update_last_used(id: i32, store: &mut RecordStore) -> (r: Option<Record>)
        requires
            old(store).wf(),
        ensures
            final(store).wf(),
            final(store).next_id == old(store).next_id,
            match r {
                Some(rec) => exists|i: int|
                    {
                        &&& 0 <= i < old(store).records@.len()
                        &&& (#[trigger] old(store).records@[i]).id == id
                        &&& rec.id == old(store).records@[i].id
                        &&& rec.slug == old(store).records@[i].slug
                        &&& rec.url == old(store).records@[i].url
                        &&& rec.created_at == old(store).records@[i].created_at
                        &&& rec.last_used_at is Some
                        &&& final(store).records@ == old(store).records@.update(i, rec)
                    },
                None => {
                    &&& (forall|i: int|
                        0 <= i < old(store).records@.len() ==> (
                        #[trigger] old(store).records@[i]).id != id)
                    &&& *final(store) == *old(store)
                },
            },
    {
        let now = clock::now_epoch_seconds();
        Self::update_last_used_at(id, store, now)
    }
}

} // verus!
