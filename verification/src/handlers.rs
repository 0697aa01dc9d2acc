use vstd::prelude::*;

use crate::clock;
use crate::errors::ErrorResponse;
use crate::listing::recent_listing;
use crate::record::{slug_free, touched, Record, RecordJSON, RecordStore};

verus! {

/// How many records the listing shows when the request names no count.
pub const DEFAULT_RECENT_COUNT: i32 = 5;

/// Every byte of `s` is an ASCII decimal digit.
pub open spec fn all_digits(s: Seq<u8>) -> bool {
    forall|i: int| 0 <= i < s.len() ==> 48 <= #[trigger] s[i] <= 57
}

/// The number the digit string `s` denotes.
pub open spec fn dec_value(s: Seq<u8>) -> int
    decreases s.len(),
{
    if s.len() == 0 {
        0
    } else {
        dec_value(s.drop_last()) * 10 + (s.last() - 48)
    }
}

/// What parsing `s` as an `i32` yields: an optional sign, then at least
/// one digit and nothing else, with the value in range.
pub open spec fn spec_parse_i32(s: Seq<u8>) -> Option<int> {
    let negative = s.len() > 0 && s[0] == 45;
    let digits = if s.len() > 0 && (s[0] == 43 || s[0] == 45) {
        s.drop_first()
    } else {
        s
    };
    if digits.len() == 0 || !all_digits(digits) {
        None
    } else {
        let v = if negative {
            -dec_value(digits)
        } else {
            dec_value(digits)
        };
        if i32::MIN <= v <= i32::MAX {
            Some(v)
        } else {
            None
        }
    }
}

/// The listing count an optional raw `count` parameter asks for: its
/// numeric value, or the default where it is absent or not a number.
pub open spec fn spec_count_of(param: Option<Seq<u8>>) -> int {
    match param {
        Some(s) => match spec_parse_i32(s) {
            Some(v) => v,
            None => DEFAULT_RECENT_COUNT as int,
        },
        None => DEFAULT_RECENT_COUNT as int,
    }
}

/// The digit strings' values never shrink as digits are appended.
proof fn lemma_dec_value_nonneg(s: Seq<u8>)
    requires
        all_digits(s),
    ensures
        dec_value(s) >= 0,
    decreases s.len(),
{
    if s.len() > 0 {
        assert(all_digits(s.drop_last()));
        lemma_dec_value_nonneg(s.drop_last());
    }
}

/// A digit string denotes at least as much as any of its prefixes.
proof fn lemma_dec_value_prefix(s: Seq<u8>, k: int)
    requires
        all_digits(s),
        0 <= k <= s.len(),
    ensures
        dec_value(s.subrange(0, k)) <= dec_value(s),
    decreases s.len() - k,
{
    if k == s.len() {
        assert(s.subrange(0, k) =~= s);
    } else {
        let next = s.subrange(0, k + 1);
        assert(next.drop_last() =~= s.subrange(0, k));
        assert(all_digits(s.subrange(0, k)));
        lemma_dec_value_nonneg(s.subrange(0, k));
        lemma_dec_value_prefix(s, k + 1);
    }
}

/// Parse an `i32` the way `str::parse` reads one: an optional `+` or
/// `-`, then one or more digits, and a value that fits.
fn parse_i32_bytes(b: &[u8]) -> (r: Option<i32>)
    ensures
        match r {
            Some(v) => spec_parse_i32(b@) == Some(v as int),
            None => spec_parse_i32(b@) is None,
        },
{
    let n = b.len();
    let mut start: usize = 0;
    let mut negative = false;
    if n > 0 && (b[0] == 43 || b[0] == 45) {
        negative = b[0] == 45;
        start = 1;
    }
    proof {
        if start == 1 {
            assert(b@.drop_first() =~= b@.subrange(1, n as int));
        } else {
            assert(b@ =~= b@.subrange(0, n as int));
        }
    }
    if start >= n {
        return None;
    }
    let ghost digits = b@.subrange(start as int, n as int);
    let mut acc: i64 = 0;
    let mut i: usize = start;
    while i < n
        invariant
            start <= i <= n,
            n == b@.len(),
            start < n,
            start == (if b@.len() > 0 && (b@[0] == 43 || b@[0] == 45) {
                1int
            } else {
                0int
            }),
            negative == (b@.len() > 0 && b@[0] == 45),
            digits == (if b@.len() > 0 && (b@[0] == 43 || b@[0] == 45) {
                b@.drop_first()
            } else {
                b@
            }),
            digits == b@.subrange(start as int, n as int),
            acc == dec_value(b@.subrange(start as int, i as int)),
            0 <= acc <= i32::MAX as i64 + 1,
            forall|k: int| start <= k < i ==> 48 <= #[trigger] b@[k] <= 57,
        decreases n - i,
    {
        let d = b[i];
        if d < 48 || d > 57 {
            proof {
                assert(digits[i - start] == b@[i as int]);
                assert(!all_digits(digits));
            }
            return None;
        }
        let next = acc * 10 + ((d - 48) as i64);
        proof {
            let p0 = b@.subrange(start as int, i as int);
            let p1 = b@.subrange(start as int, i + 1 as int);
            assert(p1.drop_last() =~= p0);
            assert(p1.last() == b@[i as int]);
        }
        if next > (i32::MAX as i64) + 1 {
            proof {
                let p1 = b@.subrange(start as int, i + 1 as int);
                if all_digits(digits) {
                    assert(p1 =~= digits.subrange(0, i + 1 - start));
                    lemma_dec_value_prefix(digits, i + 1 - start);
                }
            }
            return None;
        }
        acc = next;
        i += 1;
    }
    proof {
        assert(digits =~= b@.subrange(start as int, n as int));
        assert(all_digits(digits));
        assert(acc == dec_value(digits));
    }
    if negative {
        if acc == (i32::MAX as i64) + 1 {
            Some(i32::MIN)
        } else {
            Some(-(acc as i32))
        }
    } else {
        if acc > i32::MAX as i64 {
            None
        } else {
            Some(acc as i32)
        }
    }
}

/// The listing count a request asks for; `param` is the raw `count`
/// query parameter if the request carried one.
pub fn parse_count(param: Option<&[u8]>) -> (c: i32)
    ensures
        match param {
            Some(b) => c as int == spec_count_of(Some(b@)),
            None => c == DEFAULT_RECENT_COUNT,
        },
{
    match param {
        None => DEFAULT_RECENT_COUNT,
        Some(b) => match parse_i32_bytes(b) {
            Some(v) => v,
            None => DEFAULT_RECENT_COUNT,
        },
    }
}

/// List the most recently used records, capped at the count the request
/// asks for.
pub fn fetch_recent_used(param: Option<&[u8]>, store: &RecordStore) -> (r: Vec<Record>)
    requires
        store.wf(),
        (match param {
            Some(b) => spec_count_of(Some(b@)),
            None => DEFAULT_RECENT_COUNT as int,
        }) >= 0,
    ensures
        recent_listing(
            r@,
            store.records@,
            match param {
                Some(b) => spec_count_of(Some(b@)),
                None => DEFAULT_RECENT_COUNT as int,
            },
        ),
{
    let count = parse_count(param);
    Record::fetch_last_used(count, store)
}

/// Resolve `slug` at time `now`: on a hit the row is returned as read
/// and its `last_used_at` becomes `now`; on a miss nothing changes.
pub fn fetch_by_slug_at(slug: &String, store: &mut RecordStore, now: i64) -> (r: Option<Record>)
    requires
        old(store).wf(),
    ensures
        final(store).wf(),
        final(store).next_id == old(store).next_id,
        match r {
            Some(rec) => exists|i: int|
                {
                    &&& 0 <= i < old(store).records@.len()
                    &&& (#[trigger] old(store).records@[i]) == rec
                    &&& rec.slug@ == slug@
                    &&& final(store).records@ == old(store).records@.update(i, touched(rec, now))
                },
            None => slug_free(old(store).records@, slug@) && *final(store) == *old(store),
        },
{
    let fetched = Record::fetch_by_slug(slug, store);
    match fetched {
        Some(rec) => {
            let upd = Record::update_last_used_at(rec.id, store, now);
            proof {
                let s0 = old(store).records@;
                let i1 = choose|i: int| 0 <= i < s0.len() && s0[i] == rec;
                match upd {
                    Some(rec2) => {
                        let i2 = choose|i: int|
                            {
                                &&& 0 <= i < s0.len()
                                &&& (#[trigger] s0[i]).id == rec.id
                                &&& rec2 == touched(s0[i], now)
                                &&& store.records@ == s0.update(i, rec2)
                            };
                        if i1 < i2 {
                            assert(s0[i1].id != s0[i2].id);
                        } else if i2 < i1 {
                            assert(s0[i2].id != s0[i1].id);
                        }
                        assert(i1 == i2);
                        assert((#[trigger] s0[i1]) == rec && store.records@ == s0.update(
                            i1,
                            touched(rec, now),
                        ));
                    },
                    None => {
                        assert(s0[i1].id == rec.id);
                        assert(false);
                    },
                }
            }
            Some(rec)
        },
        None => None,
    }
}

/// Resolve `slug` with the current clock as the usage time.
pub fn fetch_by_slug(slug: &String, store: &mut RecordStore) -> (r: Option<Record>)
    requires
        old(store).wf(),
    ensures
        final(store).wf(),
        final(store).next_id == old(store).next_id,
        match r {
            Some(rec) => exists|i: int|
                {
                    &&& 0 <= i < old(store).records@.len()
                    &&& (#[trigger] old(store).records@[i]) == rec
                    &&& rec.slug@ == slug@
                    &&& final(store).records@.len() == old(store).records@.len()
                    &&& final(store).records@ == old(store).records@.update(
                        i,
                        final(store).records@[i],
                    )
                    &&& final(store).records@[i].id == rec.id
                    &&& final(store).records@[i].slug == rec.slug
                    &&& final(store).records@[i].url == rec.url
                    &&& final(store).records@[i].created_at == rec.created_at
                    &&& final(store).records@[i].last_used_at is Some
                },
            None => slug_free(old(store).records@, slug@) && *final(store) == *old(store),
        },
{
    let now = clock::now_epoch_seconds();
    let r = fetch_by_slug_at(slug, store, now);
    proof {
        let s0 = old(store).records@;
        match &r {
            Some(rec) => {
                let i1 = choose|i: int|
                    {
                        &&& 0 <= i < s0.len()
                        &&& (#[trigger] s0[i]) == *rec
                        &&& rec.slug@ == slug@
                        &&& store.records@ == s0.update(i, touched(*rec, now))
                    };
                assert(store.records@[i1] == touched(*rec, now));
                assert((#[trigger] s0[i1]) == *rec);
            },
            None => {},
        }
    }
    r
}

/// The create/overwrite protocol: insert, and on a slug conflict either
/// replace the row's url (when the request asked to overwrite) or
/// report the conflict without touching the store.
pub fn create_at(json: &RecordJSON, store: &mut RecordStore, now: i64) -> (r: Result<
    Record,
    ErrorResponse,
>)
    requires
        old(store).wf(),
        old(store).next_id < i32::MAX,
    ensures
        final(store).wf(),
        match r {
            Ok(rec) => {
                if slug_free(old(store).records@, json.slug@) {
                    &&& rec.id == old(store).next_id
                    &&& rec.slug@ == json.slug@
                    &&& rec.url@ == json.url@
                    &&& rec.created_at == now
                    &&& rec.last_used_at is None
                    &&& final(store).records@ == old(store).records@.push(rec)
                    &&& final(store).next_id == old(store).next_id + 1
                } else {
                    &&& json.overwrite
                    &&& rec.slug@ == json.slug@
                    &&& rec.url@ == json.url@
                    &&& final(store).next_id == old(store).next_id
                    &&& exists|i: int|
                        {
                            &&& 0 <= i < old(store).records@.len()
                            &&& (#[trigger] old(store).records@[i]).slug@ == json.slug@
                            &&& rec.id == old(store).records@[i].id
                            &&& rec.created_at == old(store).records@[i].created_at
                            &&& rec.last_used_at == old(store).records@[i].last_used_at
                            &&& final(store).records@ == old(store).records@.update(i, rec)
                        }
                }
            },
            Err(e) => {
                &&& !slug_free(old(store).records@, json.slug@)
                &&& !json.overwrite
                &&& e == (ErrorResponse { code: 409u16, http_status: 409u16 })
                &&& *final(store) == *old(store)
            },
        },
{
    let creation = Record::create_at(json, store, now);
    match creation {
        Ok(rec) => Ok(rec),
        Err(_conflict) => {
            if json.overwrite {
                match Record::update(json, store) {
                    Some(rec) => Ok(rec),
                    None => Err(ErrorResponse { code: 500, http_status: 500 }),
                }
            } else {
                Err(ErrorResponse { code: 409, http_status: 409 })
            }
        },
    }
}

/// The create/overwrite protocol with the current clock as the creation
/// time.
pub fn create(json: &RecordJSON, store: &mut RecordStore) -> (r: Result<Record, ErrorResponse>)
    requires
        old(store).wf(),
        old(store).next_id < i32::MAX,
    ensures
        final(store).wf(),
        match r {
            Ok(rec) => {
                if slug_free(old(store).records@, json.slug@) {
                    &&& rec.id == old(store).next_id
                    &&& rec.slug@ == json.slug@
                    &&& rec.url@ == json.url@
                    &&& rec.last_used_at is None
                    &&& final(store).records@ == old(store).records@.push(rec)
                    &&& final(store).next_id == old(store).next_id + 1
                } else {
                    &&& json.overwrite
                    &&& rec.slug@ == json.slug@
                    &&& rec.url@ == json.url@
                    &&& final(store).next_id == old(store).next_id
                    &&& exists|i: int|
                        {
                            &&& 0 <= i < old(store).records@.len()
                            &&& (#[trigger] old(store).records@[i]).slug@ == json.slug@
                            &&& rec.id == old(store).records@[i].id
                            &&& rec.created_at == old(store).records@[i].created_at
                            &&& rec.last_used_at == old(store).records@[i].last_used_at
                            &&& final(store).records@ == old(store).records@.update(i, rec)
                        }
                }
            },
            Err(e) => {
                &&& !slug_free(old(store).records@, json.slug@)
                &&& !json.overwrite
                &&& e == (ErrorResponse { code: 409u16, http_status: 409u16 })
                &&& *final(store) == *old(store)
            },
        },
{
    let now = clock::now_epoch_seconds();
    create_at(json, store, now)
}

} // verus!
