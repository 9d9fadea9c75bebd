//! The identity store: the shared table of users, keyed by case-folded
//! email. Its one reconciling operation, find-or-create, either merges a
//! normalized profile into the matching record or appends a fresh one; the
//! store keeps emails unique and never changes or reuses an id.
//!
//! Callers serialize access (one exclusive lock around each call); the
//! lemmas at the end show that any serialization of two reconciliations
//! with the same key leaves a single record.

use vstd::prelude::*;

use crate::errors::RegisterError;
use crate::ext::{fresh_uuid, lower_of, lowercase, now_epoch};
use crate::model::{LoginUserSchema, RegisterUserSchema, User, UserInfo};

verus! {

/// Emails are pairwise distinct.
pub open spec fn unique_emails(users: Seq<User>) -> bool {
    forall|i: int, j: int|
        0 <= i < j < users.len() ==> #[trigger] users[i].email@ != #[trigger] users[j].email@
}

/// Some record carries exactly this (case-folded) email.
pub open spec fn has_email(users: Seq<User>, key: Seq<char>) -> bool {
    exists|i: int| 0 <= i < users.len() && #[trigger] users[i].email@ == key
}

/// How a matching record looks after a profile is merged into it: name,
/// email (re-folded) and provider are overwritten, the photo only when the
/// profile supplies a non-empty one, `updated_at` is refreshed, and
/// everything else — the id above all — is kept.
pub open spec fn merged_user(prev: User, cur: User, info: UserInfo, key: Seq<char>, now: u64) -> bool {
    &&& cur.id@ == prev.id@
    &&& cur.name@ == info.name@
    &&& cur.email@ == key
    &&& cur.verified == prev.verified
    &&& cur.provider@ == info.provider@
    &&& cur.role@ == prev.role@
    &&& cur.password@ == prev.password@
    &&& cur.photo@ == (match info.photo {
        Some(p) => if p@.len() > 0 {
            p@
        } else {
            prev.photo@
        },
        None => prev.photo@,
    })
    &&& cur.created_at == prev.created_at
    &&& cur.updated_at == now
}

/// How a freshly created OAuth record looks: verified, no password, the
/// profile's photo or the default placeholder, both timestamps set to `now`.
pub open spec fn created_user(
    u: User,
    info: UserInfo,
    key: Seq<char>,
    id: Seq<char>,
    now: u64,
) -> bool {
    &&& u.id@ == id
    &&& u.name@ == info.name@
    &&& u.email@ == key
    &&& u.verified == true
    &&& u.provider@ == info.provider@
    &&& u.role@ == "user"@
    &&& u.password@ == ""@
    &&& u.photo@ == (match info.photo {
        Some(p) => p@,
        None => "default.png"@,
    })
    &&& u.created_at == now
    &&& u.updated_at == now
}

/// The full effect of one find-or-create under key `key`: a merge into the
/// matching record, or an append of a fresh record under `fresh_id`; `ret`
/// is the id the call returns.
pub open spec fn foc_post(
    pre: Seq<User>,
    post: Seq<User>,
    info: UserInfo,
    key: Seq<char>,
    fresh_id: Seq<char>,
    now: u64,
    ret: Seq<char>,
) -> bool {
    if has_email(pre, key) {
        exists|i: int|
            {
                &&& 0 <= i < pre.len()
                &&& #[trigger] pre[i].email@ == key
                &&& ret == pre[i].id@
                &&& post.len() == pre.len()
                &&& merged_user(pre[i], post[i], info, key, now)
                &&& forall|j: int| 0 <= j < pre.len() && j != i ==> post[j] == pre[j]
            }
    } else {
        &&& post.len() == pre.len() + 1
        &&& forall|j: int| 0 <= j < pre.len() ==> post[j] == pre[j]
        &&& created_user(post[pre.len() as int], info, key, fresh_id, now)
        &&& ret == fresh_id
    }
}

/// The first index whose record carries exactly this email, if any.
fn find_email_idx(users: &Vec<User>, key: &String) -> (r: Option<usize>)
    ensures
        match r {
            Some(i) => i < users@.len() && users@[i as int].email@ == key@,
            None => forall|k: int| 0 <= k < users@.len() ==> #[trigger] users@[k].email@ != key@,
        },
{
    let n = users.len();
    let mut i: usize = 0;
    while i < n
        invariant
            i <= n == users@.len(),
            forall|k: int| 0 <= k < i ==> #[trigger] users@[k].email@ != key@,
        decreases n - i,
    {
        if users[i].email == *key {
            return Some(i);
        }
        i += 1;
    }
    None
}

/// A mutable borrow of one element of a vector.
fn vec_index_mut<T>(vec: &mut Vec<T>, i: usize) -> (element: &mut T)
    requires
        i < old(vec).len(),
    ensures
        *element == old(vec)@[i as int],
        final(vec)@ == old(vec)@.update(i as int, *final(element)),
{
    &mut vec[i]
}

/// The shared user table. All access goes through these methods; callers
/// hold one exclusive lock around each call.
pub struct IdentityStore {
    pub users: Vec<User>,
}

impl IdentityStore {
    /// The store invariant: emails are unique.
    pub open spec fn wf(self) -> bool {
        unique_emails(self.users@)
    }

    /// An empty store.
    pub fn new() -> (r: Self)
        ensures
            r.users@.len() == 0,
            r.wf(),
    {
        IdentityStore { users: Vec::new() }
    }

    /// The number of records.
    pub fn len(&self) -> (r: usize)
        ensures
            r == self.users@.len(),
    {
        self.users.len()
    }

    /// The record at an index.
    pub fn get(&self, i: usize) -> (r: &User)
        requires
            i < self.users@.len(),
        ensures
            *r == self.users@[i as int],
    {
        &self.users[i]
    }

    /// Reconciles a normalized profile against the table under the caller's
    /// choice of fresh id and time: merges into the record whose email
    /// matches the case-folded profile email, or creates a new record.
    /// Returns the surviving record's id.
    pub fn find_or_create_at(&mut self, info: &UserInfo, fresh_id: String, now: u64) -> (ret:
        String)
        requires
            old(self).wf(),
        ensures
            final(self).wf(),
            foc_post(
                old(self).users@,
                final(self).users@,
                *info,
                lower_of(info.email@),
                fresh_id@,
                now,
                ret@,
            ),
    {
        let key = lowercase(info.email.as_str());
        let ghost key_view = key@;
        if let Some(i) = find_email_idx(&self.users, &key) {
            proof {
                assert(self.users@[i as int].email@ == key_view);
            }
            let ghost pre = self.users@;
            let u = vec_index_mut(&mut self.users, i);
            let ret = u.id.clone();
            u.name = info.name.clone();
            u.email = key;
            u.provider = info.provider.clone();
            match &info.photo {
                Some(p) => {
                    if p.as_str().unicode_len() > 0 {
                        u.photo = p.clone();
                    }
                },
                None => {},
            }
            u.updated_at = now;
            proof {
                assert(has_email(pre, key_view));
                assert(merged_user(pre[i as int], self.users@[i as int], *info, key_view, now));
                assert(foc_post(pre, self.users@, *info, key_view, fresh_id@, now, ret@));
                assert forall|a: int, b: int|
                    0 <= a < b < self.users@.len() implies #[trigger] self.users@[a].email@
                    != #[trigger] self.users@[b].email@ by {
                    if a != i && b != i {
                        assert(self.users@[a] == pre[a] && self.users@[b] == pre[b]);
                    } else if a == i {
                        assert(self.users@[b] == pre[b]);
                        assert(pre[b].email@ != key_view);
                    } else {
                        assert(self.users@[a] == pre[a]);
                        assert(pre[a].email@ != key_view);
                    }
                }
            }
            ret
        } else {
            proof {
                assert(!has_email(self.users@, key_view));
            }
            let ghost pre = self.users@;
            let photo = match &info.photo {
                Some(p) => p.clone(),
                None => "default.png".to_owned(),
            };
            let ret = fresh_id.clone();
            let u = User {
                id: fresh_id,
                name: info.name.clone(),
                email: key,
                verified: true,
                provider: info.provider.clone(),
                role: "user".to_owned(),
                password: "".to_owned(),
                photo,
                created_at: now,
                updated_at: now,
            };
            self.users.push(u);
            proof {
                assert(created_user(self.users@[pre.len() as int], *info, key_view, ret@, now));
                assert(foc_post(pre, self.users@, *info, key_view, ret@, now, ret@));
                assert forall|a: int, b: int|
                    0 <= a < b < self.users@.len() implies #[trigger] self.users@[a].email@
                    != #[trigger] self.users@[b].email@ by {
                    if b == pre.len() {
                        assert(self.users@[a] == pre[a]);
                        assert(pre[a].email@ != key_view);
                    } else {
                        assert(self.users@[a] == pre[a] && self.users@[b] == pre[b]);
                    }
                }
            }
            ret
        }
    }

    /// Reconciles a normalized profile using a fresh random id and the
    /// current time.
    pub fn find_or_create(&mut self, info: &UserInfo) -> (ret: String)
        requires
            old(self).wf(),
        ensures
            final(self).wf(),
            exists|id: Seq<char>, now: u64|
                #[trigger] foc_post(
                    old(self).users@,
                    final(self).users@,
                    *info,
                    lower_of(info.email@),
                    id,
                    now,
                    ret@,
                ),
    {
        let id = fresh_uuid();
        let t = now_epoch();
        let now: u64 = if t < 0 {
            0
        } else {
            t as u64
        };
        let ghost id_view = id@;
        let ret = self.find_or_create_at(info, id, now);
        proof {
            assert(foc_post(
                old(self).users@,
                self.users@,
                *info,
                lower_of(info.email@),
                id_view,
                now,
                ret@,
            ));
        }
        ret
    }

    /// Looks an id up; `Some` exactly when a record carries it.
    pub fn find_by_id(&self, id: &str) -> (r: Option<&User>)
        ensures
            match r {
                Some(u) => exists|i: int|
                    0 <= i < self.users@.len() && #[trigger] self.users@[i] == *u && u.id@ == id@,
                None => forall|i: int|
                    0 <= i < self.users@.len() ==> #[trigger] self.users@[i].id@ != id@,
            },
    {
        let n = self.users.len();
        let mut i: usize = 0;
        while i < n
            invariant
                i <= n == self.users@.len(),
                forall|k: int| 0 <= k < i ==> #[trigger] self.users@[k].id@ != id@,
            decreases n - i,
        {
            if crate::bytes::str_eq(self.users[i].id.as_str(), id) {
                return Some(&self.users[i]);
            }
            i += 1;
        }
        None
    }
}

/// How a locally registered record looks: unverified, the given password
/// kept verbatim, the default photo, both timestamps set to `now`.
pub open spec fn local_user(
    u: User,
    schema: RegisterUserSchema,
    key: Seq<char>,
    id: Seq<char>,
    now: u64,
) -> bool {
    &&& u.id@ == id
    &&& u.name@ == schema.name@
    &&& u.email@ == key
    &&& u.verified == false
    &&& u.provider@ == "local"@
    &&& u.role@ == "user"@
    &&& u.password@ == schema.password@
    &&& u.photo@ == "default.png"@
    &&& u.created_at == now
    &&& u.updated_at == now
}

/// What a local login request resolves to.
#[derive(Clone, Debug)]
pub enum LoginDecision {
    /// No record carries the (case-folded) email.
    NoSuchUser,
    /// The record was created through the named OAuth provider; the local
    /// password path does not apply.
    UseOAuth(String),
    /// A session token is owed for this user id.
    IssueFor(String),
}

/// A field-by-field copy of a user record.
fn clone_user(u: &User) -> (r: User)
    ensures
        r == *u,
{
    User {
        id: u.id.clone(),
        name: u.name.clone(),
        email: u.email.clone(),
        verified: u.verified,
        provider: u.provider.clone(),
        role: u.role.clone(),
        password: u.password.clone(),
        photo: u.photo.clone(),
        created_at: u.created_at,
        updated_at: u.updated_at,
    }
}

impl IdentityStore {
    /// Registers a local account under the caller's choice of id and time:
    /// refused when the case-folded email is already taken, otherwise the
    /// record is appended and returned.
    pub fn register_at(&mut self, schema: &RegisterUserSchema, fresh_id: String, now: u64) -> (r:
        Result<User, RegisterError>)
        requires
            old(self).wf(),
        ensures
            final(self).wf(),
            match r {
                Ok(u) => {
                    &&& !has_email(old(self).users@, lower_of(schema.email@))
                    &&& final(self).users@.len() == old(self).users@.len() + 1
                    &&& forall|j: int|
                        0 <= j < old(self).users@.len() ==> final(self).users@[j] == old(
                            self,
                        ).users@[j]
                    &&& final(self).users@[old(self).users@.len() as int] == u
                    &&& local_user(u, *schema, lower_of(schema.email@), fresh_id@, now)
                },
                Err(e) => {
                    &&& e == RegisterError::EmailExists
                    &&& has_email(old(self).users@, lower_of(schema.email@))
                    &&& final(self).users@ == old(self).users@
                },
            },
    {
        let key = lowercase(schema.email.as_str());
        let ghost key_view = key@;
        if let Some(_) = find_email_idx(&self.users, &key) {
            proof {
                assert(has_email(self.users@, key_view));
            }
            return Err(RegisterError::EmailExists);
        }
        let ghost pre = self.users@;
        let u = User {
            id: fresh_id,
            name: schema.name.clone(),
            email: key,
            verified: false,
            provider: "local".to_owned(),
            role: "user".to_owned(),
            password: schema.password.clone(),
            photo: "default.png".to_owned(),
            created_at: now,
            updated_at: now,
        };
        let ret = clone_user(&u);
        self.users.push(u);
        proof {
            assert forall|a: int, b: int|
                0 <= a < b < self.users@.len() implies #[trigger] self.users@[a].email@
                != #[trigger] self.users@[b].email@ by {
                if b == pre.len() {
                    assert(self.users@[a] == pre[a]);
                    assert(!(pre[a].email@ == key_view));
                }
            }
        }
        Ok(ret)
    }

    /// Registers a local account with a fresh random id at the current time.
    pub fn register(&mut self, schema: &RegisterUserSchema) -> (r: Result<User, RegisterError>)
        requires
            old(self).wf(),
        ensures
            final(self).wf(),
            r is Err <==> has_email(old(self).users@, lower_of(schema.email@)),
            r matches Ok(u) ==> final(self).users@.len() == old(self).users@.len() + 1 && exists|
                id: Seq<char>,
                now: u64,
            | #[trigger] local_user(u, *schema, lower_of(schema.email@), id, now),
            r is Err ==> final(self).users@ == old(self).users@,
    {
        let id = fresh_uuid();
        let t = now_epoch();
        let now: u64 = if t < 0 {
            0
        } else {
            t as u64
        };
        let ghost id_view = id@;
        let r = self.register_at(schema, id, now);
        proof {
            if r is Ok {
                assert(local_user(r.unwrap(), *schema, lower_of(schema.email@), id_view, now));
            }
        }
        r
    }

    /// What a local login with this email resolves to. The record is found
    /// by case-folded email; an OAuth-created record refers the caller to
    /// its provider. The password is not examined here — the comparison
    /// path is outside this store.
    pub fn login_check(&self, schema: &LoginUserSchema) -> (r: LoginDecision)
        ensures
            match r {
                LoginDecision::NoSuchUser => !has_email(self.users@, lower_of(schema.email@)),
                LoginDecision::UseOAuth(p) => exists|i: int|
                    {
                        &&& 0 <= i < self.users@.len()
                        &&& #[trigger] self.users@[i].email@ == lower_of(schema.email@)
                        &&& self.users@[i].provider@ == p@
                        &&& (p@ == "Google"@ || p@ == "GitHub"@ || p@ == "Kakao"@ || p@
                            == "Naver"@)
                    },
                LoginDecision::IssueFor(id) => exists|i: int|
                    {
                        &&& 0 <= i < self.users@.len()
                        &&& #[trigger] self.users@[i].email@ == lower_of(schema.email@)
                        &&& self.users@[i].id@ == id@
                        &&& self.users@[i].provider@ != "Google"@
                        &&& self.users@[i].provider@ != "GitHub"@
                        &&& self.users@[i].provider@ != "Kakao"@
                        &&& self.users@[i].provider@ != "Naver"@
                    },
            },
    {
        let key = lowercase(schema.email.as_str());
        match find_email_idx(&self.users, &key) {
            None => LoginDecision::NoSuchUser,
            Some(i) => {
                let p = &self.users[i].provider;
                if crate::bytes::str_eq(p.as_str(), "Google") || crate::bytes::str_eq(
                    p.as_str(),
                    "GitHub",
                ) || crate::bytes::str_eq(p.as_str(), "Kakao") || crate::bytes::str_eq(
                    p.as_str(),
                    "Naver",
                ) {
                    LoginDecision::UseOAuth(p.clone())
                } else {
                    LoginDecision::IssueFor(self.users[i].id.clone())
                }
            },
        }
    }
}

/// The refusal message for a local login against an OAuth-created record,
/// naming the provider to use instead.
pub fn oauth_login_refusal(provider: &str) -> (r: String)
    ensures
        provider@ == "Google"@ ==> r@ == "Use Google OAuth2 instead"@,
        provider@ != "Google"@ ==> r@ == "Use "@ + provider@ + " OAuth instead"@,
{
    if crate::bytes::str_eq(provider, "Google") {
        "Use Google OAuth2 instead".to_owned()
    } else {
        "Use ".to_owned().concat(provider).concat(" OAuth instead")
    }
}

/// One find-or-create keeps emails unique.
pub proof fn lemma_foc_preserves_unique(
    pre: Seq<User>,
    post: Seq<User>,
    info: UserInfo,
    key: Seq<char>,
    fresh_id: Seq<char>,
    now: u64,
    ret: Seq<char>,
)
    requires
        unique_emails(pre),
        foc_post(pre, post, info, key, fresh_id, now, ret),
    ensures
        unique_emails(post),
        has_email(post, key),
{
    if has_email(pre, key) {
        let i = choose|i: int|
            {
                &&& 0 <= i < pre.len()
                &&& #[trigger] pre[i].email@ == key
                &&& ret == pre[i].id@
                &&& post.len() == pre.len()
                &&& merged_user(pre[i], post[i], info, key, now)
                &&& forall|j: int| 0 <= j < pre.len() && j != i ==> post[j] == pre[j]
            };
        assert(post[i].email@ == key);
        assert forall|a: int, b: int|
            0 <= a < b < post.len() implies #[trigger] post[a].email@ != #[trigger] post[b].email@ by {
            if a != i && b != i {
            } else if a == i {
                assert(post[b] == pre[b] && pre[b].email@ != pre[i].email@);
            } else {
                assert(post[a] == pre[a] && pre[a].email@ != pre[i].email@);
            }
        }
    } else {
        assert(post[pre.len() as int].email@ == key);
        assert forall|a: int, b: int|
            0 <= a < b < post.len() implies #[trigger] post[a].email@ != #[trigger] post[b].email@ by {
            if b == pre.len() {
                assert(post[a] == pre[a]);
                assert(!(pre[a].email@ == key));
            }
        }
    }
}

/// Reconciliation is idempotent: a second find-or-create with a profile
/// carrying the same case-folded email returns the id the first one
/// returned, and the table does not grow again.
pub proof fn lemma_find_or_create_idempotent(
    s0: Seq<User>,
    s1: Seq<User>,
    s2: Seq<User>,
    info1: UserInfo,
    info2: UserInfo,
    key: Seq<char>,
    id1: Seq<char>,
    id2: Seq<char>,
    now1: u64,
    now2: u64,
    r1: Seq<char>,
    r2: Seq<char>,
)
    requires
        unique_emails(s0),
        foc_post(s0, s1, info1, key, id1, now1, r1),
        foc_post(s1, s2, info2, key, id2, now2, r2),
    ensures
        r2 == r1,
        s2.len() == s1.len(),
{
    lemma_foc_preserves_unique(s0, s1, info1, key, id1, now1, r1);
    let i2 = choose|i: int|
        {
            &&& 0 <= i < s1.len()
            &&& #[trigger] s1[i].email@ == key
            &&& r2 == s1[i].id@
            &&& s2.len() == s1.len()
            &&& merged_user(s1[i], s2[i], info2, key, now2)
            &&& forall|j: int| 0 <= j < s1.len() && j != i ==> s2[j] == s1[j]
        };
    if has_email(s0, key) {
        let i1 = choose|i: int|
            {
                &&& 0 <= i < s0.len()
                &&& #[trigger] s0[i].email@ == key
                &&& r1 == s0[i].id@
                &&& s1.len() == s0.len()
                &&& merged_user(s0[i], s1[i], info1, key, now1)
                &&& forall|j: int| 0 <= j < s0.len() && j != i ==> s1[j] == s0[j]
            };
        assert(s1[i1].email@ == key);
        assert(i2 == i1);
        assert(s1[i1].id@ == s0[i1].id@);
        assert(r2 == r1);
    } else {
        let c = s0.len() as int;
        assert(s1[c].email@ == key);
        assert(i2 == c);
        assert(s1[c].id@ == id1);
        assert(r2 == r1);
    }
}

/// Two first-time logins with the same new email, serialized in either
/// order by the store's lock, leave exactly one record with that email —
/// at the end of the old table — and both calls return its id.
pub proof fn lemma_concurrent_creation_single_record(
    s0: Seq<User>,
    s1: Seq<User>,
    s2: Seq<User>,
    info1: UserInfo,
    info2: UserInfo,
    key: Seq<char>,
    id1: Seq<char>,
    id2: Seq<char>,
    now1: u64,
    now2: u64,
    r1: Seq<char>,
    r2: Seq<char>,
)
    requires
        unique_emails(s0),
        !has_email(s0, key),
        foc_post(s0, s1, info1, key, id1, now1, r1),
        foc_post(s1, s2, info2, key, id2, now2, r2),
    ensures
        s2.len() == s0.len() + 1,
        r2 == r1,
        s2[s0.len() as int].email@ == key,
        forall|j: int| 0 <= j < s2.len() && j != s0.len() ==> #[trigger] s2[j].email@ != key,
{
    lemma_foc_preserves_unique(s0, s1, info1, key, id1, now1, r1);
    lemma_find_or_create_idempotent(
        s0,
        s1,
        s2,
        info1,
        info2,
        key,
        id1,
        id2,
        now1,
        now2,
        r1,
        r2,
    );
    let c = s0.len() as int;
    let i2 = choose|i: int|
        {
            &&& 0 <= i < s1.len()
            &&& #[trigger] s1[i].email@ == key
            &&& r2 == s1[i].id@
            &&& s2.len() == s1.len()
            &&& merged_user(s1[i], s2[i], info2, key, now2)
            &&& forall|j: int| 0 <= j < s1.len() && j != i ==> s2[j] == s1[j]
        };
    assert(s1[c].email@ == key);
    assert(i2 == c);
    assert(s2[c].email@ == key);
    assert forall|j: int| 0 <= j < s2.len() && j != c implies #[trigger] s2[j].email@ != key by {
        assert(s2[j] == s1[j] && s1[j] == s0[j]);
        assert(!(s0[j].email@ == key));
    }
}

} // verus!
