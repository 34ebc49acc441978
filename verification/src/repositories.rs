use vstd::prelude::*;

use crate::errors::OAuthError;
use crate::models::{
    credential_matches_payload, token_matches_payload, AddCredentialPayload, AddTokenPayload,
    OauthToken, ServiceCredential,
};

verus! {

/// The first credential row carrying `id`, if any.
pub open spec fn credential_with_id(s: Seq<ServiceCredential>, id: int) -> Option<
    ServiceCredential,
>
    decreases s.len(),
{
    if s.len() == 0 {
        None
    } else if s[0].id == id {
        Some(s[0])
    } else {
        credential_with_id(s.drop_first(), id)
    }
}

/// The row stored under `key`, if any.
pub open spec fn token_for(m: Map<int, OauthToken>, key: int) -> Option<OauthToken> {
    if m.contains_key(key) {
        Some(m[key])
    } else {
        None
    }
}

/// Read and write access to credential rows.
///
/// Reads promise `Ok`: only then can the services owe success on present
/// rows, and the verified store never fails a read. Writes may fail, as a
/// store may.
pub trait CredentialRepository: Sized {
    /// The store's internal well-formedness, established by its
    /// constructor and preserved by every method.
    spec fn wf(&self) -> bool;

    /// The stored credential rows in insertion order.
    spec fn credentials(&self) -> Seq<ServiceCredential>;

    /// List every stored credential.
    fn get_all_credentials(&self) -> (r: Result<Vec<ServiceCredential>, OAuthError>)
        requires
            self.wf(),
        ensures
            r matches Ok(v) && v@ == self.credentials(),
    ;

    /// Append a credential row built from the payload, under an id that no
    /// stored row carries.
    fn add_credential(&mut self, payload: AddCredentialPayload) -> (r: Result<
        ServiceCredential,
        OAuthError,
    >)
        requires
            old(self).wf(),
        ensures
            final(self).wf(),
            match r {
                Ok(c) => credential_matches_payload(c, payload) && final(self).credentials()
                    == old(self).credentials().push(c) && (forall|j: int|
                    0 <= j < old(self).credentials().len() ==> #[trigger] old(
                        self,
                    ).credentials()[j].id != c.id),
                Err(_) => final(self).credentials() == old(self).credentials(),
            },
    ;

    /// Look one credential up by id.
    fn get_credential_by_id(&self, id: i64) -> (r: Result<Option<ServiceCredential>, OAuthError>)
        requires
            self.wf(),
        ensures
            r matches Ok(o) && o == credential_with_id(self.credentials(), id as int),
    ;
}

/// Read and write access to token rows, at most one per credential id.
///
/// As with credential rows, reads promise `Ok` and writes may fail.
pub trait TokenRepository: Sized {
    /// The store's internal well-formedness, established by its
    /// constructor and preserved by every method.
    spec fn wf(&self) -> bool;

    /// The stored token rows, keyed by credential id.
    spec fn tokens(&self) -> Map<int, OauthToken>;

    /// Insert or overwrite the single row for the payload's credential id,
    /// keeping an overwritten row's id.
    fn upsert_token(&mut self, payload: AddTokenPayload) -> (r: Result<OauthToken, OAuthError>)
        requires
            old(self).wf(),
        ensures
            final(self).wf(),
            match r {
                Ok(t) => {
                    &&& token_matches_payload(t, payload)
                    &&& final(self).tokens() == old(self).tokens().insert(
                        payload.credentials_id as int,
                        t,
                    )
                    &&& old(self).tokens().contains_key(payload.credentials_id as int) ==> t.id
                        == old(self).tokens()[payload.credentials_id as int].id
                },
                Err(_) => final(self).tokens() == old(self).tokens(),
            },
    ;

    /// Look the row for one credential id up.
    fn get_token_by_credential_id(&self, credential_id: i64) -> (r: Result<
        Option<OauthToken>,
        OAuthError,
    >)
        requires
            self.wf(),
        ensures
            r matches Ok(o) && o == token_for(self.tokens(), credential_id as int),
    ;
}

/// No two rows share a credential id.
pub open spec fn unique_credential_ids(s: Seq<OauthToken>) -> bool {
    forall|i: int, j: int|
        0 <= i < j < s.len() ==> s[i].credentials_id != s[j].credentials_id
}

/// The map a row sequence with unique credential ids denotes.
pub open spec fn token_map_of(s: Seq<OauthToken>) -> Map<int, OauthToken>
    decreases s.len(),
{
    if s.len() == 0 {
        Map::empty()
    } else {
        token_map_of(s.drop_last()).insert(s.last().credentials_id as int, s.last())
    }
}

proof fn lemma_token_map_contains(s: Seq<OauthToken>, key: int)
    ensures
        token_map_of(s).contains_key(key) <==> exists|j: int|
            0 <= j < s.len() && #[trigger] s[j].credentials_id == key,
    decreases s.len(),
{
    if s.len() > 0 {
        lemma_token_map_contains(s.drop_last(), key);
        if token_map_of(s).contains_key(key) {
            if s.last().credentials_id == key {
                assert(s[s.len() - 1].credentials_id == key);
            } else {
                let j = choose|j: int|
                    0 <= j < s.drop_last().len() && #[trigger] s.drop_last()[j].credentials_id
                        == key;
                assert(s[j].credentials_id == key);
            }
        }
        if exists|j: int| 0 <= j < s.len() && #[trigger] s[j].credentials_id == key {
            let j = choose|j: int| 0 <= j < s.len() && #[trigger] s[j].credentials_id == key;
            if j < s.len() - 1 {
                assert(s.drop_last()[j].credentials_id == key);
            }
        }
    }
}

proof fn lemma_token_map_at(s: Seq<OauthToken>, i: int)
    requires
        unique_credential_ids(s),
        0 <= i < s.len(),
    ensures
        token_map_of(s).contains_key(s[i].credentials_id as int),
        token_map_of(s)[s[i].credentials_id as int] == s[i],
    decreases s.len(),
{
    if i < s.len() - 1 {
        assert(unique_credential_ids(s.drop_last())) by {
            assert(forall|a: int, b: int|
                0 <= a < b < s.drop_last().len() ==> s.drop_last()[a] == s[a]
                    && s.drop_last()[b] == s[b]);
        }
        assert(s.drop_last()[i] == s[i]);
        lemma_token_map_at(s.drop_last(), i);
        assert(s[i].credentials_id != s.last().credentials_id);
    }
}

proof fn lemma_token_map_update(s: Seq<OauthToken>, i: int, t: OauthToken)
    requires
        unique_credential_ids(s),
        0 <= i < s.len(),
        t.credentials_id == s[i].credentials_id,
    ensures
        token_map_of(s.update(i, t)) =~= token_map_of(s).insert(t.credentials_id as int, t),
    decreases s.len(),
{
    let key = t.credentials_id as int;
    if i == s.len() - 1 {
        assert(s.update(i, t).drop_last() =~= s.drop_last());
        assert(s.update(i, t).last() == t);
    } else {
        assert(unique_credential_ids(s.drop_last())) by {
            assert(forall|a: int, b: int|
                0 <= a < b < s.drop_last().len() ==> s.drop_last()[a] == s[a]
                    && s.drop_last()[b] == s[b]);
        }
        assert(s.drop_last()[i] == s[i]);
        lemma_token_map_update(s.drop_last(), i, t);
        assert(s.update(i, t).drop_last() =~= s.drop_last().update(i, t));
        assert(s.update(i, t).last() == s.last());
        assert(s.last().credentials_id != key);
    }
}

proof fn lemma_token_map_push(s: Seq<OauthToken>, t: OauthToken)
    ensures
        token_map_of(s.push(t)) =~= token_map_of(s).insert(t.credentials_id as int, t),
{
    assert(s.push(t).drop_last() =~= s);
    assert(s.push(t).last() == t);
}

/// Two sequential upserts for one credential id leave exactly one row for
/// it, holding the second write's content under the row id taken at the
/// first insert. The hypotheses are what `upsert_token` ensures of two
/// consecutive calls on a store that lacked the key: the first leaves
/// `m0.insert(key, t1)`, the second hands back a row whose id it kept.
pub proof fn lemma_upsert_twice_one_row(
    m0: Map<int, OauthToken>,
    key: int,
    t1: OauthToken,
    t2: OauthToken,
)
    requires
        !m0.contains_key(key),
        t2.id == m0.insert(key, t1)[key].id,
    ensures
        ({
            let m2 = m0.insert(key, t1).insert(key, t2);
            &&& m2[key] == t2
            &&& t2.id == t1.id
            &&& m2.dom() =~= m0.dom().insert(key)
            &&& forall|k: int| k != key && #[trigger] m2.contains_key(k) ==> m2[k] == m0[k]
        }),
{
}

/// The verified in-memory credential store.
pub struct InMemoryCredentialRepository {
    items: Vec<ServiceCredential>,
    next_id: i64,
}

impl InMemoryCredentialRepository {
    /// An empty store.
    pub fn new() -> (r: Self)
        ensures
            r.wf(),
            r.credentials() == Seq::<ServiceCredential>::empty(),
    {
        InMemoryCredentialRepository { items: Vec::new(), next_id: 1 }
    }
}

impl CredentialRepository for InMemoryCredentialRepository {
    closed spec fn wf(&self) -> bool {
        &&& 1 <= self.next_id
        &&& forall|j: int| 0 <= j < self.items@.len() ==> self.items@[j].id < self.next_id
    }

    closed spec fn credentials(&self) -> Seq<ServiceCredential> {
        self.items@
    }

    fn get_all_credentials(&self) -> (r: Result<Vec<ServiceCredential>, OAuthError>) {
        let mut out: Vec<ServiceCredential> = Vec::new();
        let mut i: usize = 0;
        while i < self.items.len()
            invariant
                i <= self.items@.len(),
                out@ == self.items@.subrange(0, i as int),
            decreases self.items@.len() - i,
        {
            out.push(self.items[i].clone());
            assert(out@ =~= self.items@.subrange(0, i + 1));
            i = i + 1;
        }
        assert(out@ =~= self.items@);
        Ok(out)
    }

    fn add_credential(&mut self, payload: AddCredentialPayload) -> (r: Result<
        ServiceCredential,
        OAuthError,
    >) {
        let id = self.next_id;
        if id == i64::MAX {
            return Err(OAuthError::PersistenceError);
        }
        self.next_id = id + 1;
        let AddCredentialPayload { service_name, client_id, client_secret } = payload;
        let c = ServiceCredential { id, service_name, client_id, client_secret };
        self.items.push(c.clone());
        Ok(c)
    }

    fn get_credential_by_id(&self, id: i64) -> (r: Result<Option<ServiceCredential>, OAuthError>) {
        let ghost s = self.items@;
        let mut i: usize = 0;
        while i < self.items.len()
            invariant
                s == self.items@,
                i <= s.len(),
                forall|j: int| 0 <= j < i ==> s[j].id != id,
            decreases s.len() - i,
        {
            if self.items[i].id == id {
                proof {
                    lemma_credential_with_id_index(s, id as int, i as int);
                }
                return Ok(Some(self.items[i].clone()));
            }
            i = i + 1;
        }
        proof {
            lemma_credential_with_id_none(s, id as int);
        }
        Ok(None)
    }
}

proof fn lemma_credential_with_id_index(s: Seq<ServiceCredential>, id: int, i: int)
    requires
        0 <= i < s.len(),
        s[i].id == id,
        forall|j: int| 0 <= j < i ==> s[j].id != id,
    ensures
        credential_with_id(s, id) == Some(s[i]),
    decreases s.len(),
{
    if i > 0 {
        assert(s.drop_first()[i - 1] == s[i]);
        assert(forall|j: int| 0 <= j < i - 1 ==> s.drop_first()[j] == s[j + 1]);
        lemma_credential_with_id_index(s.drop_first(), id, i - 1);
    }
}

proof fn lemma_credential_with_id_none(s: Seq<ServiceCredential>, id: int)
    requires
        forall|j: int| 0 <= j < s.len() ==> s[j].id != id,
    ensures
        credential_with_id(s, id) is None,
    decreases s.len(),
{
    if s.len() > 0 {
        assert(forall|j: int| 0 <= j < s.drop_first().len() ==> s.drop_first()[j] == s[j + 1]);
        lemma_credential_with_id_none(s.drop_first(), id);
    }
}

/// The verified in-memory token store: one row per credential id, kept by
/// upsert-on-conflict.
pub struct InMemoryTokenRepository {
    items: Vec<OauthToken>,
    next_id: i64,
}

impl InMemoryTokenRepository {
    /// An empty store.
    pub fn new() -> (r: Self)
        ensures
            r.wf(),
            r.tokens() == Map::<int, OauthToken>::empty(),
    {
        InMemoryTokenRepository { items: Vec::new(), next_id: 1 }
    }
}

impl TokenRepository for InMemoryTokenRepository {
    closed spec fn wf(&self) -> bool {
        &&& 1 <= self.next_id
        &&& unique_credential_ids(self.items@)
        &&& forall|j: int| 0 <= j < self.items@.len() ==> self.items@[j].id < self.next_id
    }

    closed spec fn tokens(&self) -> Map<int, OauthToken> {
        token_map_of(self.items@)
    }

    fn upsert_token(&mut self, payload: AddTokenPayload) -> (r: Result<OauthToken, OAuthError>) {
        let ghost s0 = self.items@;
        let key = payload.credentials_id;
        let mut i: usize = 0;
        while i < self.items.len()
            invariant
                self.items@ == s0,
                s0 == old(self).items@,
                self.next_id == old(self).next_id,
                1 <= self.next_id,
                unique_credential_ids(s0),
                forall|j: int| 0 <= j < s0.len() ==> s0[j].id < self.next_id,
                i <= s0.len(),
                forall|j: int| 0 <= j < i ==> s0[j].credentials_id != key,
                key == payload.credentials_id,
            decreases s0.len() - i,
        {
            if self.items[i].credentials_id == key {
                let AddTokenPayload {
                    credentials_id,
                    access_token,
                    refresh_token,
                    expires_at,
                    scope,
                } = payload;
                let t = OauthToken {
                    id: self.items[i].id,
                    credentials_id,
                    access_token,
                    refresh_token,
                    expires_at,
                    scope,
                };
                self.items[i] = t.clone();
                proof {
                    lemma_token_map_at(s0, i as int);
                    lemma_token_map_update(s0, i as int, t);
                }
                return Ok(t);
            }
            i = i + 1;
        }
        let id = self.next_id;
        if id == i64::MAX {
            return Err(OAuthError::PersistenceError);
        }
        self.next_id = id + 1;
        let AddTokenPayload { credentials_id, access_token, refresh_token, expires_at, scope } =
            payload;
        let t = OauthToken { id, credentials_id, access_token, refresh_token, expires_at, scope };
        self.items.push(t.clone());
        proof {
            lemma_token_map_contains(s0, key as int);
            lemma_token_map_push(s0, t);
        }
        Ok(t)
    }

    fn get_token_by_credential_id(&self, credential_id: i64) -> (r: Result<
        Option<OauthToken>,
        OAuthError,
    >) {
        let ghost s = self.items@;
        let mut i: usize = 0;
        while i < self.items.len()
            invariant
                s == self.items@,
                unique_credential_ids(s),
                i <= s.len(),
                forall|j: int| 0 <= j < i ==> s[j].credentials_id != credential_id,
            decreases s.len() - i,
        {
            if self.items[i].credentials_id == credential_id {
                proof {
                    lemma_token_map_at(s, i as int);
                }
                return Ok(Some(self.items[i].clone()));
            }
            i = i + 1;
        }
        proof {
            lemma_token_map_contains(s, credential_id as int);
        }
        Ok(None)
    }
}

} // verus!
