use vstd::prelude::*;

use vstd::seq_lib::group_to_multiset_ensures;

use crate::auth::{
    access_token_present, access_tokens_unique, refresh_token_present, refresh_tokens_unique,
    AccessToken, RefreshToken,
};
use crate::listing::{recency_leq, recent_listing};
use crate::record::{ids_unique, slug_free, slugs_unique, Record};

verus! {

/// Creating a record whose slug no row yet carries succeeds (the `Ok`
/// case of `Record::create_at` covers exactly these stores), and the
/// slug then picks out the new row alone: the store keeps unique slugs,
/// and any row that carries the slug is the new row, so an immediate
/// `fetch_by_slug` returns it unchanged.
pub proof fn lemma_create_then_fetch(s: Seq<Record>, rec: Record)
    requires
        slugs_unique(s),
        slug_free(s, rec.slug@),
    ensures
        slugs_unique(s.push(rec)),
        !slug_free(s.push(rec), rec.slug@),
        forall|r2: Record|
            #[trigger] s.push(rec).contains(r2) && r2.slug@ == rec.slug@ ==> r2 == rec,
{
    let s1 = s.push(rec);
    assert(s1[s.len() as int] == rec);
    assert forall|a: int, b: int| 0 <= a < b < s1.len() implies (#[trigger] s1[a]).slug@ != (
    #[trigger] s1[b]).slug@ by {
        if b < s.len() {
            assert(s[a].slug@ != s[b].slug@);
        } else {
            assert(s1[b] == rec && s1[a] == s[a]);
        }
    }
    assert forall|r2: Record|
        #[trigger] s1.contains(r2) && r2.slug@ == rec.slug@ implies r2 == rec by {
        let i = choose|i: int| 0 <= i < s1.len() && s1[i] == r2;
        if i < s.len() {
            assert(s[i].slug@ != rec.slug@);
        } else {
            assert(s1[i] == rec);
        }
    }
}

/// After an overwrite replaces the url of the row that carries a slug,
/// the slug picks out the updated row alone, so a subsequent
/// `fetch_by_slug` returns the new url.
pub proof fn lemma_overwrite_then_fetch(s: Seq<Record>, i: int, rec: Record)
    requires
        slugs_unique(s),
        0 <= i < s.len(),
        s[i].slug@ == rec.slug@,
    ensures
        slugs_unique(s.update(i, rec)),
        forall|r2: Record|
            #[trigger] s.update(i, rec).contains(r2) && r2.slug@ == rec.slug@ ==> r2 == rec,
{
    let s1 = s.update(i, rec);
    assert forall|k: int| 0 <= k < s1.len() implies (#[trigger] s1[k]).slug@ == s[k].slug@ by {
        if k != i {
            assert(s1[k] == s[k]);
        }
    }
    assert forall|a: int, b: int| 0 <= a < b < s1.len() implies (#[trigger] s1[a]).slug@ != (
    #[trigger] s1[b]).slug@ by {
        assert(s[a].slug@ != s[b].slug@);
    }
    assert forall|r2: Record|
        #[trigger] s1.contains(r2) && r2.slug@ == rec.slug@ implies r2 == rec by {
        let j = choose|j: int| 0 <= j < s1.len() && s1[j] == r2;
        if j != i {
            assert(s[j].slug@ != s[i].slug@);
            assert(s1[j] == s[j]);
        }
    }
}

/// A row that is strictly the most recent — for instance one whose
/// `last_used_at` was just set past every other row's — stands first in
/// any recency listing with a positive cap: touching a row is
/// observable on the next `fetch_last_used`.
pub proof fn lemma_touched_listed_first(s: Seq<Record>, i: int, r: Seq<Record>, count: int)
    requires
        ids_unique(s),
        0 <= i < s.len(),
        forall|j: int|
            0 <= j < s.len() && j != i ==> recency_leq(s[i], #[trigger] s[j]) && !recency_leq(
                s[j],
                s[i],
            ),
        recent_listing(r, s, count),
        count >= 1,
    ensures
        r.len() >= 1,
        r[0] == s[i],
{
    broadcast use group_to_multiset_ensures;

    assert(r.len() >= 1);
    assert(r.contains(r[0]));
    assert(r.to_multiset().count(r[0]) > 0);
    assert(s.to_multiset().count(r[0]) > 0);
    assert(s.contains(r[0]));
    let j0 = choose|j: int| 0 <= j < s.len() && s[j] == r[0];
    if r[0] != s[i] {
        assert(j0 != i);
        assert(!recency_leq(s[j0], s[i]));
        assert(s.contains(s[i]));
        assert(s.to_multiset().count(s[i]) > 0);
        if r.to_multiset().count(s[i]) > 0 {
            assert(r.contains(s[i]));
            let k = choose|k: int| 0 <= k < r.len() && r[k] == s[i];
            if k > 0 {
                assert(recency_leq(r[0], r[k]));
            }
            assert(false);
        } else {
            assert(s.to_multiset().count(s[i]) > r.to_multiset().count(s[i]));
            assert(recency_leq(r[0], s[i]));
            assert(false);
        }
    }
}

/// The outcomes of a refresh-token lookup never blur: a lookup that
/// reports the token expired sees a matching row, one that reports it
/// missing sees none, and with token strings unique no row is both live
/// and expired at one time — so Expired and NotFound are never
/// confused.
pub proof fn lemma_refresh_status_unambiguous(s: Seq<RefreshToken>, tok: Seq<char>, now: i64)
    requires
        refresh_tokens_unique(s),
    ensures
        (exists|i: int|
            0 <= i < s.len() && (#[trigger] s[i]).token@ == tok && now >= s[i].expires_at)
            ==> refresh_token_present(s, tok),
        (exists|i: int| 0 <= i < s.len() && (#[trigger] s[i]).token@ == tok && now < s[i].expires_at)
            ==> refresh_token_present(s, tok),
        !((exists|i: int|
            0 <= i < s.len() && (#[trigger] s[i]).token@ == tok && now >= s[i].expires_at) && (
        exists|i: int|
            0 <= i < s.len() && (#[trigger] s[i]).token@ == tok && now < s[i].expires_at)),
        refresh_token_present(s, tok) ==> ((exists|i: int|
            0 <= i < s.len() && (#[trigger] s[i]).token@ == tok && now >= s[i].expires_at) || (
        exists|i: int|
            0 <= i < s.len() && (#[trigger] s[i]).token@ == tok && now < s[i].expires_at)),
{
    if (exists|i: int|
        0 <= i < s.len() && (#[trigger] s[i]).token@ == tok && now >= s[i].expires_at) && (
    exists|i: int| 0 <= i < s.len() && (#[trigger] s[i]).token@ == tok && now < s[i].expires_at) {
        let a = choose|i: int|
            0 <= i < s.len() && (#[trigger] s[i]).token@ == tok && now >= s[i].expires_at;
        let b = choose|i: int|
            0 <= i < s.len() && (#[trigger] s[i]).token@ == tok && now < s[i].expires_at;
        if a < b {
            assert(s[a].token@ != s[b].token@);
        } else if b < a {
            assert(s[b].token@ != s[a].token@);
        }
        assert(false);
    }
}

/// The access-token twin of `lemma_refresh_status_unambiguous`.
pub proof fn lemma_access_status_unambiguous(s: Seq<AccessToken>, tok: Seq<char>, now: i64)
    requires
        access_tokens_unique(s),
    ensures
        (exists|i: int|
            0 <= i < s.len() && (#[trigger] s[i]).token@ == tok && now >= s[i].expires_at)
            ==> access_token_present(s, tok),
        (exists|i: int| 0 <= i < s.len() && (#[trigger] s[i]).token@ == tok && now < s[i].expires_at)
            ==> access_token_present(s, tok),
        !((exists|i: int|
            0 <= i < s.len() && (#[trigger] s[i]).token@ == tok && now >= s[i].expires_at) && (
        exists|i: int|
            0 <= i < s.len() && (#[trigger] s[i]).token@ == tok && now < s[i].expires_at)),
        access_token_present(s, tok) ==> ((exists|i: int|
            0 <= i < s.len() && (#[trigger] s[i]).token@ == tok && now >= s[i].expires_at) || (
        exists|i: int|
            0 <= i < s.len() && (#[trigger] s[i]).token@ == tok && now < s[i].expires_at)),
{
    if (exists|i: int|
        0 <= i < s.len() && (#[trigger] s[i]).token@ == tok && now >= s[i].expires_at) && (
    exists|i: int| 0 <= i < s.len() && (#[trigger] s[i]).token@ == tok && now < s[i].expires_at) {
        let a = choose|i: int|
            0 <= i < s.len() && (#[trigger] s[i]).token@ == tok && now >= s[i].expires_at;
        let b = choose|i: int|
            0 <= i < s.len() && (#[trigger] s[i]).token@ == tok && now < s[i].expires_at;
        if a < b {
            assert(s[a].token@ != s[b].token@);
        } else if b < a {
            assert(s[b].token@ != s[a].token@);
        }
        assert(false);
    }
}

} // verus!
