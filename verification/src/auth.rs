use vstd::prelude::*;

use crate::clock;
use crate::errors::NinetyTwoError;

verus! {

/// How long a refresh token lives from its creation, in seconds.
pub const REFRESH_TOKEN_TTL_SECONDS: i64 = 2592000;

/// How long an access token lives from its creation, in seconds.
pub const ACCESS_TOKEN_TTL_SECONDS: i64 = 3600;

/// How often an insert is retried with a fresh token before the
/// operation reports a terminal failure.
pub const TOKEN_INSERT_ATTEMPTS: usize = 5;

/// An opaque bearer token tied to a refresh token.
pub struct AccessToken {
    pub id: i32,
    pub token: String,
    pub expires_at: i64,
    pub created_at: i64,
    pub updated_at: i64,
    pub refresh_token_id: i32,
}

impl Clone for AccessToken {
    fn clone(&self) -> (r: Self)
        ensures
            r == *self,
    {
        AccessToken {
            id: self.id,
            token: self.token.clone(),
            expires_at: self.expires_at,
            created_at: self.created_at,
            updated_at: self.updated_at,
            refresh_token_id: self.refresh_token_id,
        }
    }
}

/// An opaque token from which access tokens are minted.
pub struct RefreshToken {
    pub id: i32,
    pub token: String,
    pub expires_at: i64,
    pub created_at: i64,
    pub updated_at: i64,
}

impl Clone for RefreshToken {
    fn clone(&self) -> (r: Self)
        ensures
            r == *self,
    {
        RefreshToken {
            id: self.id,
            token: self.token.clone(),
            expires_at: self.expires_at,
            created_at: self.created_at,
            updated_at: self.updated_at,
        }
    }
}

/// The two token tables: their rows, and the id each next insert
/// receives.
pub struct TokenStore {
    pub refresh_tokens: Vec<RefreshToken>,
    pub access_tokens: Vec<AccessToken>,
    pub next_refresh_id: i32,
    pub next_access_id: i32,
}

/// Some refresh row carries `id`.
pub open spec fn refresh_id_present(s: Seq<RefreshToken>, id: i32) -> bool {
    exists|i: int| 0 <= i < s.len() && (#[trigger] s[i]).id == id
}

/// Some refresh row carries the token string `tok`.
pub open spec fn refresh_token_present(s: Seq<RefreshToken>, tok: Seq<char>) -> bool {
    exists|i: int| 0 <= i < s.len() && (#[trigger] s[i]).token@ == tok
}

/// Some access row carries the token string `tok`.
pub open spec fn access_token_present(s: Seq<AccessToken>, tok: Seq<char>) -> bool {
    exists|i: int| 0 <= i < s.len() && (#[trigger] s[i]).token@ == tok
}

/// No two refresh rows share an id.
pub open spec fn refresh_ids_unique(s: Seq<RefreshToken>) -> bool {
    forall|i: int, j: int| 0 <= i < j < s.len() ==> (#[trigger] s[i]).id != (#[trigger] s[j]).id
}

/// No two refresh rows share a token string.
pub open spec fn refresh_tokens_unique(s: Seq<RefreshToken>) -> bool {
    forall|i: int, j: int|
        0 <= i < j < s.len() ==> (#[trigger] s[i]).token@ != (#[trigger] s[j]).token@
}

/// No two access rows share an id.
pub open spec fn access_ids_unique(s: Seq<AccessToken>) -> bool {
    forall|i: int, j: int| 0 <= i < j < s.len() ==> (#[trigger] s[i]).id != (#[trigger] s[j]).id
}

/// No two access rows share a token string.
pub open spec fn access_tokens_unique(s: Seq<AccessToken>) -> bool {
    forall|i: int, j: int|
        0 <= i < j < s.len() ==> (#[trigger] s[i]).token@ != (#[trigger] s[j]).token@
}

/// `now + ttl`, saturating at the largest representable time.
pub open spec fn spec_expiry(now: i64, ttl: i64) -> i64 {
    if now + ttl <= i64::MAX {
        (now + ttl) as i64
    } else {
        i64::MAX
    }
}

impl TokenStore {
    /// Ids and token strings are unique keys per table, ids are positive
    /// and below the next insert's id, and every access row points at an
    /// existing refresh row.
    pub open spec fn wf(&self) -> bool {
        &&& 0 < self.next_refresh_id
        &&& 0 < self.next_access_id
        &&& refresh_ids_unique(self.refresh_tokens@)
        &&& refresh_tokens_unique(self.refresh_tokens@)
        &&& forall|i: int|
            0 <= i < self.refresh_tokens@.len() ==> 0 < (#[trigger] self.refresh_tokens@[i]).id
                < self.next_refresh_id
        &&& access_ids_unique(self.access_tokens@)
        &&& access_tokens_unique(self.access_tokens@)
        &&& forall|i: int|
            0 <= i < self.access_tokens@.len() ==> 0 < (#[trigger] self.access_tokens@[i]).id
                < self.next_access_id
        &&& forall|i: int|
            0 <= i < self.access_tokens@.len() ==> refresh_id_present(
                self.refresh_tokens@,
                (#[trigger] self.access_tokens@[i]).refresh_token_id,
            )
    }

    /// Two empty tables; each first insert receives id 1.
    pub fn new() -> (s: Self)
        ensures
            s.wf(),
            s.refresh_tokens@.len() == 0,
            s.access_tokens@.len() == 0,
    {
        TokenStore {
            refresh_tokens: Vec::new(),
            access_tokens: Vec::new(),
            next_refresh_id: 1,
            next_access_id: 1,
        }
    }
}

/// Relies on uuid's `Uuid::new_v4` and its `Display` impl: a random
/// version-4 UUID rendered in the 36-character hyphenated form. The
/// value is random, so nothing more is assumed of it.
#[verifier::external_body]
fn fresh_token() -> (s: String)
    ensures
        s@.len() == 36,
{
    uuid::Uuid::new_v4().to_string()
}

/// `now + ttl`, saturating at the largest representable time.
fn expiry_at(now: i64, ttl: i64) -> (r: i64)
    requires
        ttl >= 0,
    ensures
        r == spec_expiry(now, ttl),
{
    if now > i64::MAX - ttl {
        i64::MAX
    } else {
        now + ttl
    }
}

impl RefreshToken {
    /// Whether the token is past its expiry at time `now`.
    pub fn is_expired_at(&self, now: i64) -> (b: bool)
        ensures
            b == (now >= self.expires_at),
    {
        now >= self.expires_at
    }

    /// Insert a refresh token with the given token string, valid from
    /// `now` for the refresh TTL. A row that already carries the string
    /// makes the insert a storage failure that changes nothing.
    pub fn insert_at(store: &mut TokenStore, token: String, now: i64) -> (r: Result<
        RefreshToken,
        NinetyTwoError,
    >)
        requires
            old(store).wf(),
            old(store).next_refresh_id < i32::MAX,
        ensures
            final(store).wf(),
            final(store).access_tokens@ == old(store).access_tokens@,
            final(store).next_access_id == old(store).next_access_id,
            match r {
                Ok(rt) => {
                    &&& !refresh_token_present(old(store).refresh_tokens@, token@)
                    &&& rt.id == old(store).next_refresh_id
                    &&& rt.token@ == token@
                    &&& rt.created_at == now
                    &&& rt.updated_at == now
                    &&& rt.expires_at == spec_expiry(now, REFRESH_TOKEN_TTL_SECONDS)
                    &&& final(store).refresh_tokens@ == old(store).refresh_tokens@.push(rt)
                    &&& final(store).next_refresh_id == old(store).next_refresh_id + 1
                },
                Err(e) => {
                    &&& e == NinetyTwoError::StorageError
                    &&& refresh_token_present(old(store).refresh_tokens@, token@)
                    &&& *final(store) == *old(store)
                },
            },
    {
        let n = store.refresh_tokens.len();
        let mut i: usize = 0;
        while i < n
            invariant
                i <= n,
                n == store.refresh_tokens@.len(),
                *store == *old(store),
                old(store).wf(),
                forall|k: int|
                    0 <= k < i ==> (#[trigger] store.refresh_tokens@[k]).token@ != token@,
            decreases n - i,
        {
            if store.refresh_tokens[i].token == token {
                return Err(NinetyTwoError::StorageError);
            }
            i += 1;
        }
        let rt = RefreshToken {
            id: store.next_refresh_id,
            token,
            expires_at: expiry_at(now, REFRESH_TOKEN_TTL_SECONDS),
            created_at: now,
            updated_at: now,
        };
        let out = rt.clone();
        store.refresh_tokens.push(rt);
        store.next_refresh_id = store.next_refresh_id + 1;
        proof {
            let s0 = old(store).refresh_tokens@;
            let s1 = store.refresh_tokens@;
            assert forall|a: int, b: int| 0 <= a < b < s1.len() implies (#[trigger] s1[a]).id != (
            #[trigger] s1[b]).id by {
                if b < s0.len() {
                    assert(s0[a].id != s0[b].id);
                } else {
                    assert(s1[b] == out && s1[a] == s0[a]);
                }
            }
            assert forall|a: int, b: int| 0 <= a < b < s1.len() implies (#[trigger] s1[a]).token@
                != (#[trigger] s1[b]).token@ by {
                if b < s0.len() {
                    assert(s0[a].token@ != s0[b].token@);
                } else {
                    assert(s1[b] == out && s1[a] == s0[a]);
                }
            }
            assert forall|k: int| 0 <= k < s1.len() implies 0 < (#[trigger] s1[k]).id
                < store.next_refresh_id by {
                if k < s0.len() {
                    assert(0 < s0[k].id < old(store).next_refresh_id);
                } else {
                    assert(s1[k] == out);
                }
            }
            let ats = store.access_tokens@;
            assert forall|k: int| 0 <= k < ats.len() implies refresh_id_present(
                s1,
                (#[trigger] ats[k]).refresh_token_id,
            ) by {
                let w = choose|i2: int|
                    0 <= i2 < s0.len() && (#[trigger] s0[i2]).id == ats[k].refresh_token_id;
                assert(s1[w] == s0[w]);
            }
        }
        Ok(out)
    }

    /// Mint and store a refresh token valid from `now`: draw fresh
    /// random token strings until one is free, giving up with a storage
    /// failure after a bounded number of attempts. On an empty table no
    /// draw can collide, so there success is certain.
    pub fn new_at(store: &mut TokenStore, now: i64) -> (r: Result<RefreshToken, NinetyTwoError>)
        requires
            old(store).wf(),
            old(store).next_refresh_id < i32::MAX,
        ensures
            final(store).wf(),
            final(store).access_tokens@ == old(store).access_tokens@,
            final(store).next_access_id == old(store).next_access_id,
            old(store).refresh_tokens@.len() == 0 ==> r is Ok,
            match r {
                Ok(rt) => {
                    &&& rt.id == old(store).next_refresh_id
                    &&& rt.token@.len() == 36
                    &&& rt.created_at == now
                    &&& rt.updated_at == now
                    &&& rt.expires_at == spec_expiry(now, REFRESH_TOKEN_TTL_SECONDS)
                    &&& final(store).refresh_tokens@ == old(store).refresh_tokens@.push(rt)
                    &&& final(store).next_refresh_id == old(store).next_refresh_id + 1
                },
                Err(e) => {
                    &&& e == NinetyTwoError::StorageError
                    &&& *final(store) == *old(store)
                },
            },
    {
        let mut attempts: usize = 0;
        while attempts < TOKEN_INSERT_ATTEMPTS
            invariant
                *store == *old(store),
                old(store).wf(),
                old(store).next_refresh_id < i32::MAX,
                attempts > 0 ==> old(store).refresh_tokens@.len() > 0,
            decreases TOKEN_INSERT_ATTEMPTS - attempts,
        {
            let token = fresh_token();
            let attempt = Self::insert_at(store, token, now);
            match attempt {
                Ok(rt) => {
                    return Ok(rt);
                },
                Err(_collision) => {
                },
            }
            attempts += 1;
        }
        Err(NinetyTwoError::StorageError)
    }

    /// Mint and store a refresh token valid from the current clock
    /// reading. On an empty table success is certain.
    pub fn new(store: &mut TokenStore) -> (r: Result<RefreshToken, NinetyTwoError>)
        requires
            old(store).wf(),
            old(store).next_refresh_id < i32::MAX,
        ensures
            final(store).wf(),
            final(store).access_tokens@ == old(store).access_tokens@,
            final(store).next_access_id == old(store).next_access_id,
            old(store).refresh_tokens@.len() == 0 ==> r is Ok,
            match r {
                Ok(rt) => {
                    &&& rt.id == old(store).next_refresh_id
                    &&& rt.token@.len() == 36
                    &&& rt.updated_at == rt.created_at
                    &&& rt.expires_at == spec_expiry(rt.created_at, REFRESH_TOKEN_TTL_SECONDS)
                    &&& final(store).refresh_tokens@ == old(store).refresh_tokens@.push(rt)
                    &&& final(store).next_refresh_id == old(store).next_refresh_id + 1
                },
                Err(e) => {
                    &&& e == NinetyTwoError::StorageError
                    &&& *final(store) == *old(store)
                },
            },
    {
        let now = clock::now_epoch_seconds();
        Self::new_at(store, now)
    }

    /// Look a refresh token up by id at time `now`: found and live,
    /// found but expired, or not found, each its own outcome.
    pub fn fetch_by_id_at(id: i32, store: &TokenStore, now: i64) -> (r: Result<
        RefreshToken,
        NinetyTwoError,
    >)
        requires
            store.wf(),
        ensures
            match r {
                Ok(t) => {
                    &&& store.refresh_tokens@.contains(t)
                    &&& t.id == id
                    &&& now < t.expires_at
                },
                Err(e) => match e {
                    NinetyTwoError::RefreshTokenNotFound => !refresh_id_present(
                        store.refresh_tokens@,
                        id,
                    ),
                    NinetyTwoError::RefreshTokenExpired => exists|i: int|
                        {
                            &&& 0 <= i < store.refresh_tokens@.len()
                            &&& (#[trigger] store.refresh_tokens@[i]).id == id
                            &&& now >= store.refresh_tokens@[i].expires_at
                        },
                    _ => false,
                },
            },
    {
        let n = store.refresh_tokens.len();
        let mut i: usize = 0;
        while i < n
            invariant
                i <= n,
                n == store.refresh_tokens@.len(),
                forall|k: int| 0 <= k < i ==> (#[trigger] store.refresh_tokens@[k]).id != id,
            decreases n - i,
        {
            if store.refresh_tokens[i].id == id {
                let t = store.refresh_tokens[i].clone();
                proof {
                    assert(store.refresh_tokens@[i as int] == t);
                }
                if t.is_expired_at(now) {
                    return Err(NinetyTwoError::RefreshTokenExpired);
                }
                return Ok(t);
            }
            i += 1;
        }
        Err(NinetyTwoError::RefreshTokenNotFound)
    }

    /// Look a refresh token up by id with the current clock.
    pub fn fetch_by_id(id: i32, store: &TokenStore) -> (r: Result<RefreshToken, NinetyTwoError>)
        requires
            store.wf(),
        ensures
            match r {
                Ok(t) => store.refresh_tokens@.contains(t) && t.id == id,
                Err(e) => match e {
                    NinetyTwoError::RefreshTokenNotFound => !refresh_id_present(
                        store.refresh_tokens@,
                        id,
                    ),
                    NinetyTwoError::RefreshTokenExpired => refresh_id_present(
                        store.refresh_tokens@,
                        id,
                    ),
                    _ => false,
                },
            },
    {
        let now = clock::now_epoch_seconds();
        Self::fetch_by_id_at(id, store, now)
    }

    /// Look a refresh token up by its token string at time `now`.
    pub fn fetch_by_token_at(token: &String, store: &TokenStore, now: i64) -> (r: Result<
        RefreshToken,
        NinetyTwoError,
    >)
        requires
            store.wf(),
        ensures
            match r {
                Ok(t) => {
                    &&& store.refresh_tokens@.contains(t)
                    &&& t.token@ == token@
                    &&& now < t.expires_at
                },
                Err(e) => match e {
                    NinetyTwoError::RefreshTokenNotFound => !refresh_token_present(
                        store.refresh_tokens@,
                        token@,
                    ),
                    NinetyTwoError::RefreshTokenExpired => exists|i: int|
                        {
                            &&& 0 <= i < store.refresh_tokens@.len()
                            &&& (#[trigger] store.refresh_tokens@[i]).token@ == token@
                            &&& now >= store.refresh_tokens@[i].expires_at
                        },
                    _ => false,
                },
            },
    {
        let n = store.refresh_tokens.len();
        let mut i: usize = 0;
        while i < n
            invariant
                i <= n,
                n == store.refresh_tokens@.len(),
                forall|k: int|
                    0 <= k < i ==> (#[trigger] store.refresh_tokens@[k]).token@ != token@,
            decreases n - i,
        {
            if store.refresh_tokens[i].token == *token {
                let t = store.refresh_tokens[i].clone();
                proof {
                    assert(store.refresh_tokens@[i as int] == t);
                }
                if t.is_expired_at(now) {
                    return Err(NinetyTwoError::RefreshTokenExpired);
                }
                return Ok(t);
            }
            i += 1;
        }
        Err(NinetyTwoError::RefreshTokenNotFound)
    }

    /// Look a refresh token up by its token string with the current
    /// clock.
    pub fn fetch_by_token(token: &String, store: &TokenStore) -> (r: Result<
        RefreshToken,
        NinetyTwoError,
    >)
        requires
            store.wf(),
        ensures
            match r {
                Ok(t) => store.refresh_tokens@.contains(t) && t.token@ == token@,
                Err(e) => match e {
                    NinetyTwoError::RefreshTokenNotFound => !refresh_token_present(
                        store.refresh_tokens@,
                        token@,
                    ),
                    NinetyTwoError::RefreshTokenExpired => refresh_token_present(
                        store.refresh_tokens@,
                        token@,
                    ),
                    _ => false,
                },
            },
    {
        let now = clock::now_epoch_seconds();
        Self::fetch_by_token_at(token, store, now)
    }
}

impl AccessToken {
    /// Whether the token is past its expiry at time `now`.
    pub fn is_expired_at(&self, now: i64) -> (b: bool)
        ensures
            b == (now >= self.expires_at),
    {
        now >= self.expires_at
    }

    /// Insert an access token with the given token string for the
    /// refresh row `refresh_token_id`, valid from `now` for the access
    /// TTL. A row that already carries the string makes the insert a
    /// storage failure that changes nothing.
    pub fn insert_at(
        store: &mut TokenStore,
        token: String,
        now: i64,
        refresh_token_id: i32,
    ) -> (r: Result<AccessToken, NinetyTwoError>)
        requires
            old(store).wf(),
            old(store).next_access_id < i32::MAX,
            refresh_id_present(old(store).refresh_tokens@, refresh_token_id),
        ensures
            final(store).wf(),
            final(store).refresh_tokens@ == old(store).refresh_tokens@,
            final(store).next_refresh_id == old(store).next_refresh_id,
            match r {
                Ok(at) => {
                    &&& !access_token_present(old(store).access_tokens@, token@)
                    &&& at.id == old(store).next_access_id
                    &&& at.token@ == token@
                    &&& at.created_at == now
                    &&& at.updated_at == now
                    &&& at.expires_at == spec_expiry(now, ACCESS_TOKEN_TTL_SECONDS)
                    &&& at.refresh_token_id == refresh_token_id
                    &&& final(store).access_tokens@ == old(store).access_tokens@.push(at)
                    &&& final(store).next_access_id == old(store).next_access_id + 1
                },
                Err(e) => {
                    &&& e == NinetyTwoError::StorageError
                    &&& access_token_present(old(store).access_tokens@, token@)
                    &&& *final(store) == *old(store)
                },
            },
    {
        let n = store.access_tokens.len();
        let mut i: usize = 0;
        while i < n
            invariant
                i <= n,
                n == store.access_tokens@.len(),
                *store == *old(store),
                old(store).wf(),
                forall|k: int| 0 <= k < i ==> (#[trigger] store.access_tokens@[k]).token@ != token@,
            decreases n - i,
        {
            if store.access_tokens[i].token == token {
                return Err(NinetyTwoError::StorageError);
            }
            i += 1;
        }
        let at = AccessToken {
            id: store.next_access_id,
            token,
            expires_at: expiry_at(now, ACCESS_TOKEN_TTL_SECONDS),
            created_at: now,
            updated_at: now,
            refresh_token_id,
        };
        let out = at.clone();
        store.access_tokens.push(at);
        store.next_access_id = store.next_access_id + 1;
        proof {
            let s0 = old(store).access_tokens@;
            let s1 = store.access_tokens@;
            let rts = store.refresh_tokens@;
            assert forall|a: int, b: int| 0 <= a < b < s1.len() implies (#[trigger] s1[a]).id != (
            #[trigger] s1[b]).id by {
                if b < s0.len() {
                    assert(s0[a].id != s0[b].id);
                } else {
                    assert(s1[b] == out && s1[a] == s0[a]);
                }
            }
            assert forall|a: int, b: int| 0 <= a < b < s1.len() implies (#[trigger] s1[a]).token@
                != (#[trigger] s1[b]).token@ by {
                if b < s0.len() {
                    assert(s0[a].token@ != s0[b].token@);
                } else {
                    assert(s1[b] == out && s1[a] == s0[a]);
                }
            }
            assert forall|k: int| 0 <= k < s1.len() implies 0 < (#[trigger] s1[k]).id
                < store.next_access_id by {
                if k < s0.len() {
                    assert(0 < s0[k].id < old(store).next_access_id);
                } else {
                    assert(s1[k] == out);
                }
            }
            assert forall|k: int| 0 <= k < s1.len() implies refresh_id_present(
                rts,
                (#[trigger] s1[k]).refresh_token_id,
            ) by {
                if k < s0.len() {
                    assert(refresh_id_present(rts, s0[k].refresh_token_id));
                } else {
                    assert(s1[k] == out);
                }
            }
        }
        Ok(out)
    }

    /// Mint and store an access token for the refresh token with the
    /// given id, valid from `now`: the refresh token must exist and be
    /// live, then fresh random token strings are drawn until one is
    /// free, giving up with a storage failure after a bounded number of
    /// attempts. With a live refresh row and an empty access table no
    /// draw can collide, so there success is certain.
    pub fn new_at(refresh_token_id: i32, store: &mut TokenStore, now: i64) -> (r: Result<
        AccessToken,
        NinetyTwoError,
    >)
        requires
            old(store).wf(),
            old(store).next_access_id < i32::MAX,
        ensures
            final(store).wf(),
            final(store).refresh_tokens@ == old(store).refresh_tokens@,
            final(store).next_refresh_id == old(store).next_refresh_id,
            ((exists|i: int|
                {
                    &&& 0 <= i < old(store).refresh_tokens@.len()
                    &&& (#[trigger] old(store).refresh_tokens@[i]).id == refresh_token_id
                    &&& now < old(store).refresh_tokens@[i].expires_at
                }) && old(store).access_tokens@.len() == 0) ==> r is Ok,
            match r {
                Ok(at) => {
                    &&& exists|i: int|
                        {
                            &&& 0 <= i < old(store).refresh_tokens@.len()
                            &&& (#[trigger] old(store).refresh_tokens@[i]).id == refresh_token_id
                            &&& now < old(store).refresh_tokens@[i].expires_at
                        }
                    &&& at.refresh_token_id == refresh_token_id
                    &&& at.id == old(store).next_access_id
                    &&& at.token@.len() == 36
                    &&& at.created_at == now
                    &&& at.updated_at == now
                    &&& at.expires_at == spec_expiry(now, ACCESS_TOKEN_TTL_SECONDS)
                    &&& final(store).access_tokens@ == old(store).access_tokens@.push(at)
                    &&& final(store).next_access_id == old(store).next_access_id + 1
                },
                Err(e) => {
                    &&& *final(store) == *old(store)
                    &&& match e {
                        NinetyTwoError::RefreshTokenNotFound => !refresh_id_present(
                            old(store).refresh_tokens@,
                            refresh_token_id,
                        ),
                        NinetyTwoError::RefreshTokenExpired => exists|i: int|
                            {
                                &&& 0 <= i < old(store).refresh_tokens@.len()
                                &&& (#[trigger] old(store).refresh_tokens@[i]).id
                                    == refresh_token_id
                                &&& now >= old(store).refresh_tokens@[i].expires_at
                            },
                        NinetyTwoError::StorageError => exists|i: int|
                            {
                                &&& 0 <= i < old(store).refresh_tokens@.len()
                                &&& (#[trigger] old(store).refresh_tokens@[i]).id
                                    == refresh_token_id
                                &&& now < old(store).refresh_tokens@[i].expires_at
                            },
                        _ => false,
                    }
                },
            },
    {
        let real_rt_id: i32;
        let fetched = RefreshToken::fetch_by_id_at(refresh_token_id, store, now);
        match fetched {
            Ok(rt) => {
                proof {
                    let rts = store.refresh_tokens@;
                    let w = choose|i: int| 0 <= i < rts.len() && rts[i] == rt;
                    assert((#[trigger] rts[w]).id == refresh_token_id && now < rts[w].expires_at);
                }
                real_rt_id = rt.id;
            },
            Err(e) => {
                proof {
                    let rts = store.refresh_tokens@;
                    if exists|i: int|
                        {
                            &&& 0 <= i < rts.len()
                            &&& (#[trigger] rts[i]).id == refresh_token_id
                            &&& now < rts[i].expires_at
                        } {
                        let iw = choose|i: int|
                            {
                                &&& 0 <= i < rts.len()
                                &&& (#[trigger] rts[i]).id == refresh_token_id
                                &&& now < rts[i].expires_at
                            };
                        match e {
                            NinetyTwoError::RefreshTokenNotFound => {
                                assert(refresh_id_present(rts, refresh_token_id));
                                assert(false);
                            },
                            NinetyTwoError::RefreshTokenExpired => {
                                let ie = choose|i: int|
                                    {
                                        &&& 0 <= i < rts.len()
                                        &&& (#[trigger] rts[i]).id == refresh_token_id
                                        &&& now >= rts[i].expires_at
                                    };
                                if iw < ie {
                                    assert(rts[iw].id != rts[ie].id);
                                } else if ie < iw {
                                    assert(rts[ie].id != rts[iw].id);
                                }
                                assert(false);
                            },
                            _ => {
                                assert(false);
                            },
                        }
                    }
                }
                return Err(e);
            },
        }
        let mut attempts: usize = 0;
        while attempts < TOKEN_INSERT_ATTEMPTS
            invariant
                *store == *old(store),
                old(store).wf(),
                old(store).next_access_id < i32::MAX,
                attempts > 0 ==> old(store).access_tokens@.len() > 0,
                real_rt_id == refresh_token_id,
                refresh_id_present(old(store).refresh_tokens@, refresh_token_id),
                exists|i: int|
                    {
                        &&& 0 <= i < old(store).refresh_tokens@.len()
                        &&& (#[trigger] old(store).refresh_tokens@[i]).id == refresh_token_id
                        &&& now < old(store).refresh_tokens@[i].expires_at
                    },
            decreases TOKEN_INSERT_ATTEMPTS - attempts,
        {
            let token = fresh_token();
            let attempt = Self::insert_at(store, token, now, real_rt_id);
            match attempt {
                Ok(at) => {
                    return Ok(at);
                },
                Err(_collision) => {
                },
            }
            attempts += 1;
        }
        Err(NinetyTwoError::StorageError)
    }

    /// Mint and store an access token for the refresh token with the
    /// given id, valid from the current clock reading. A storage
    /// failure here means the refresh row was live at that reading;
    /// success cannot be promised, since the reading decides expiry.
    pub fn new(refresh_token_id: i32, store: &mut TokenStore) -> (r: Result<
        AccessToken,
        NinetyTwoError,
    >)
        requires
            old(store).wf(),
            old(store).next_access_id < i32::MAX,
        ensures
            final(store).wf(),
            final(store).refresh_tokens@ == old(store).refresh_tokens@,
            final(store).next_refresh_id == old(store).next_refresh_id,
            match r {
                Ok(at) => {
                    &&& refresh_id_present(old(store).refresh_tokens@, refresh_token_id)
                    &&& at.refresh_token_id == refresh_token_id
                    &&& at.id == old(store).next_access_id
                    &&& at.token@.len() == 36
                    &&& at.updated_at == at.created_at
                    &&& at.expires_at == spec_expiry(at.created_at, ACCESS_TOKEN_TTL_SECONDS)
                    &&& final(store).access_tokens@ == old(store).access_tokens@.push(at)
                    &&& final(store).next_access_id == old(store).next_access_id + 1
                },
                Err(e) => {
                    &&& *final(store) == *old(store)
                    &&& match e {
                        NinetyTwoError::RefreshTokenNotFound => !refresh_id_present(
                            old(store).refresh_tokens@,
                            refresh_token_id,
                        ),
                        NinetyTwoError::RefreshTokenExpired => refresh_id_present(
                            old(store).refresh_tokens@,
                            refresh_token_id,
                        ),
                        NinetyTwoError::StorageError => exists|i: int|
                            {
                                &&& 0 <= i < old(store).refresh_tokens@.len()
                                &&& (#[trigger] old(store).refresh_tokens@[i]).id
                                    == refresh_token_id
                                &&& old(store).refresh_tokens@[i].expires_at > i64::MIN
                            },
                        _ => false,
                    }
                },
            },
    {
        let now = clock::now_epoch_seconds();
        let r = Self::new_at(refresh_token_id, store, now);
        proof {
            let rts = old(store).refresh_tokens@;
            match &r {
                Err(e) => {
                    if *e == NinetyTwoError::StorageError {
                        let iw = choose|i: int|
                            {
                                &&& 0 <= i < rts.len()
                                &&& (#[trigger] rts[i]).id == refresh_token_id
                                &&& now < rts[i].expires_at
                            };
                        assert(rts[iw].expires_at > i64::MIN);
                    }
                },
                _ => {},
            }
        }
        r
    }

    /// Look an access token up by its token string at time `now`.
    pub fn fetch_by_token_at(token: &String, store: &TokenStore, now: i64) -> (r: Result<
        AccessToken,
        NinetyTwoError,
    >)
        requires
            store.wf(),
        ensures
            match r {
                Ok(t) => {
                    &&& store.access_tokens@.contains(t)
                    &&& t.token@ == token@
                    &&& now < t.expires_at
                },
                Err(e) => match e {
                    NinetyTwoError::AccessTokenNotFound => !access_token_present(
                        store.access_tokens@,
                        token@,
                    ),
                    NinetyTwoError::AccessTokenExpired => exists|i: int|
                        {
                            &&& 0 <= i < store.access_tokens@.len()
                            &&& (#[trigger] store.access_tokens@[i]).token@ == token@
                            &&& now >= store.access_tokens@[i].expires_at
                        },
                    _ => false,
                },
            },
    {
        let n = store.access_tokens.len();
        let mut i: usize = 0;
        while i < n
            invariant
                i <= n,
                n == store.access_tokens@.len(),
                forall|k: int| 0 <= k < i ==> (#[trigger] store.access_tokens@[k]).token@ != token@,
            decreases n - i,
        {
            if store.access_tokens[i].token == *token {
                let t = store.access_tokens[i].clone();
                proof {
                    assert(store.access_tokens@[i as int] == t);
                }
                if t.is_expired_at(now) {
                    return Err(NinetyTwoError::AccessTokenExpired);
                }
                return Ok(t);
            }
            i += 1;
        }
        Err(NinetyTwoError::AccessTokenNotFound)
    }

    /// Look an access token up by its token string with the current
    /// clock.
    pub fn fetch_by_token(token: &String, store: &TokenStore) -> (r: Result<
        AccessToken,
        NinetyTwoError,
    >)
        requires
            store.wf(),
        ensures
            match r {
                Ok(t) => store.access_tokens@.contains(t) && t.token@ == token@,
                Err(e) => match e {
                    NinetyTwoError::AccessTokenNotFound => !access_token_present(
                        store.access_tokens@,
                        token@,
                    ),
                    NinetyTwoError::AccessTokenExpired => access_token_present(
                        store.access_tokens@,
                        token@,
                    ),
                    _ => false,
                },
            },
    {
        let now = clock::now_epoch_seconds();
        Self::fetch_by_token_at(token, store, now)
    }
}

} // verus!
