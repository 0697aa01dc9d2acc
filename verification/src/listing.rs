use vstd::prelude::*;

use vstd::multiset::Multiset;
use vstd::seq_lib::group_to_multiset_ensures;

use crate::record::{Record, RecordStore};

verus! {

/// `a` sorts no later than `b` in the recency listing: by `last_used_at`
/// descending with never-used rows last, ties broken by `id` descending.
pub open spec fn recency_leq(a: Record, b: Record) -> bool {
    match (a.last_used_at, b.last_used_at) {
        (Some(x), Some(y)) => x > y || (x == y && a.id >= b.id),
        (Some(_), None) => true,
        (None, Some(_)) => false,
        (None, None) => a.id >= b.id,
    }
}

/// Every row of `s` sorts no later than the rows after it.
pub open spec fn sorted_by_recency(s: Seq<Record>) -> bool {
    forall|i: int, j: int| 0 <= i < j < s.len() ==> #[trigger] recency_leq(s[i], s[j])
}

/// `r` is the recency listing of the table `s` capped at `count` rows:
/// as long as the cap and the table allow, sorted, drawn from the table,
/// and no row left behind sorts before a row that was taken.
pub open spec fn recent_listing(r: Seq<Record>, s: Seq<Record>, count: int) -> bool {
    &&& count <= s.len() ==> r.len() == count
    &&& count >= s.len() ==> r.len() == s.len()
    &&& sorted_by_recency(r)
    &&& r.to_multiset().subset_of(s.to_multiset())
    &&& forall|x: Record|
        #[trigger] s.to_multiset().count(x) > r.to_multiset().count(x)
            ==> forall|k: int| 0 <= k < r.len() ==> #[trigger] recency_leq(r[k], x)
}

/// The recency order holds between any two rows, one way or the other.
proof fn lemma_recency_total(a: Record, b: Record)
    ensures
        recency_leq(a, b) || recency_leq(b, a),
{
}

/// The recency order is transitive.
proof fn lemma_recency_trans(a: Record, b: Record, c: Record)
    requires
        recency_leq(a, b),
        recency_leq(b, c),
    ensures
        recency_leq(a, c),
{
}

/// Concatenating sequences adds their multisets.
proof fn lemma_concat_to_multiset(a: Seq<Record>, b: Seq<Record>)
    ensures
        (a + b).to_multiset() =~= a.to_multiset().add(b.to_multiset()),
    decreases b.len(),
{
    broadcast use group_to_multiset_ensures;

    if b.len() == 0 {
        assert(a + b =~= a);
        assert(b.to_multiset().len() == 0);
        vstd::multiset::lemma_multiset_empty_len(b.to_multiset());
    } else {
        let head = b.drop_last();
        let tail = b.last();
        lemma_concat_to_multiset(a, head);
        assert(a + b =~= (a + head).push(tail));
        assert(b =~= head.push(tail));
    }
}

/// Inserting into a sequence inserts into its multiset.
proof fn lemma_insert_to_multiset(s: Seq<Record>, i: int, x: Record)
    requires
        0 <= i <= s.len(),
    ensures
        s.insert(i, x).to_multiset() =~= s.to_multiset().insert(x),
{
    broadcast use group_to_multiset_ensures;

    let left = s.subrange(0, i);
    let right = s.subrange(i, s.len() as int);
    assert(s.insert(i, x) == left.push(x) + right);
    lemma_concat_to_multiset(left.push(x), right);
    lemma_concat_to_multiset(left, right);
    assert(left + right =~= s);
}

/// The position before which `rec` belongs in the sorted `v`: every
/// earlier row sorts no later than `rec`, and the row at the position,
/// if any, does not.
fn insertion_point(v: &Vec<Record>, rec: &Record) -> (j: usize)
    requires
        sorted_by_recency(v@),
    ensures
        j <= v@.len(),
        forall|k: int| 0 <= k < j ==> #[trigger] recency_leq(v@[k], *rec),
        j < v@.len() ==> !recency_leq(v@[j as int], *rec),
{
    let n = v.len();
    let mut j: usize = 0;
    while j < n
        invariant
            j <= n,
            n == v@.len(),
            forall|k: int| 0 <= k < j ==> #[trigger] recency_leq(v@[k], *rec),
        decreases n - j,
    {
        if !recency_le(&v[j], rec) {
            return j;
        }
        j += 1;
    }
    j
}

/// Whether `a` sorts no later than `b`.
fn recency_le(a: &Record, b: &Record) -> (r: bool)
    ensures
        r == recency_leq(*a, *b),
{
    match (a.last_used_at, b.last_used_at) {
        (Some(x), Some(y)) => x > y || (x == y && a.id >= b.id),
        (Some(_), None) => true,
        (None, Some(_)) => false,
        (None, None) => a.id >= b.id,
    }
}

/// Insert `rec` into the sorted `v`, keeping it sorted.
fn sorted_insert(v: &mut Vec<Record>, rec: Record)
    requires
        sorted_by_recency(old(v)@),
    ensures
        final(v)@.len() == old(v)@.len() + 1,
        sorted_by_recency(final(v)@),
        final(v)@.to_multiset() =~= old(v)@.to_multiset().insert(rec),
{
    let j = insertion_point(v, &rec);
    proof {
        let s = old(v)@;
        let j0 = j as int;
        assert forall|k: int| j0 <= k < s.len() implies #[trigger] recency_leq(rec, s[k]) by {
            lemma_recency_total(s[j0], rec);
            if k > j0 {
                lemma_recency_trans(rec, s[j0], s[k]);
            }
        }
        s.insert_ensures(j0, rec);
        lemma_insert_to_multiset(s, j0, rec);
    }
    v.insert(j, rec);
    proof {
        let s = old(v)@;
        let s1 = v@;
        let j0 = j as int;
        assert forall|a: int, b: int| 0 <= a < b < s1.len() implies #[trigger] recency_leq(
            s1[a],
            s1[b],
        ) by {
            if a < j0 {
                assert(s1[a] == s[a]);
            } else if a > j0 {
                assert(s1[a] == s[a - 1]);
            }
            if b < j0 {
                assert(s1[b] == s[b]);
            } else if b > j0 {
                assert(s1[b] == s[b - 1]);
            }
        }
    }
}

impl Record {
    /// The up-to-`count` most recently used rows, ordered by
    /// `last_used_at` descending with never-used rows last, ties broken
    /// by `id` descending.
    pub fn fetch_last_used(count: i32, store: &RecordStore) -> (r: Vec<Record>)
        requires
            store.wf(),
            count >= 0,
        ensures
            recent_listing(r@, store.records@, count as int),
    {
        broadcast use group_to_multiset_ensures;

        let n = store.records.len();
        let mut sorted: Vec<Record> = Vec::new();
        let mut i: usize = 0;
        while i < n
            invariant
                i <= n,
                n == store.records@.len(),
                sorted@.len() == i,
                sorted_by_recency(sorted@),
                sorted@.to_multiset() =~= store.records@.subrange(0, i as int).to_multiset(),
            decreases n - i,
        {
            let rec = store.records[i].clone();
            sorted_insert(&mut sorted, rec);
            proof {
                broadcast use group_to_multiset_ensures;

                let s = store.records@;
                assert(s.subrange(0, i + 1 as int) =~= s.subrange(0, i as int).push(s[i as int]));
            }
            i += 1;
        }
        proof {
            assert(store.records@.subrange(0, n as int) =~= store.records@);
        }
        let cap: usize = if (count as usize) < sorted.len() {
            count as usize
        } else {
            sorted.len()
        };
        let ghost full = sorted@;
        sorted.truncate(cap);
        proof {
            let s = store.records@;
            let pre = full.subrange(0, cap as int);
            let suf = full.subrange(cap as int, full.len() as int);
            assert(sorted@ == pre);
            assert(full =~= pre + suf);
            lemma_concat_to_multiset(pre, suf);
            assert forall|x: Record|
                #[trigger] s.to_multiset().count(x) > sorted@.to_multiset().count(x) implies (
            forall|k: int| 0 <= k < sorted@.len() ==> #[trigger] recency_leq(sorted@[k], x)) by {
                assert(suf.to_multiset().count(x) > 0);
                assert(suf.contains(x));
                let jx = choose|jj: int| 0 <= jj < suf.len() && suf[jj] == x;
                assert(full[cap + jx] == x);
                assert forall|k: int| 0 <= k < sorted@.len() implies #[trigger] recency_leq(
                    sorted@[k],
                    x,
                ) by {
                    assert(full[k] == sorted@[k]);
                    assert(recency_leq(full[k], full[cap + jx]));
                }
            }
        }
        sorted
    }
}

} // verus!
