//! The credential store: owned account records, looked up both by username
//! and by identity token, with create, authenticate and delete operations.

use vstd::prelude::*;

use crate::errors::AuthError;
use crate::hashing::{digest_matches, hash_password, verify_password};
use crate::model::{lookup_token, remove_by_token, tokens_unique, UserRec, UsersMap};
use crate::token::generate_token;

verus! {

/// How many times a colliding identity token is regenerated before
/// registration gives up with `IdentityCollision`.
pub const MAX_TOKEN_ATTEMPTS: usize = 8;

/// One registered account: its durable identity token, its username, and the
/// salted digest of its password. The plaintext password is never stored, and
/// the digest is never handed out.
#[derive(Clone, Debug)]
pub struct User {
    user_uuid: String,
    username: String,
    password: String,
}

impl User {
    /// The record this account contributes to the store's abstract state.
    pub closed spec fn rec(&self) -> UserRec {
        UserRec { token: self.user_uuid@, digest: self.password@ }
    }

    /// The username under which the abstract state keys this account.
    pub closed spec fn name(&self) -> Seq<char> {
        self.username@
    }
}

/// A credential store: registers users, authenticates a username/password
/// pair to the user's durable identity token, and deletes users by token.
pub trait Users {
    /// The store's internal well-formedness invariant.
    spec fn wf(&self) -> bool;

    /// The store's abstract state: username to account record.
    spec fn users(&self) -> UsersMap;

    /// A well-formed store never assigns one identity token to two accounts,
    /// so its two lookup directions (by username, by token) cannot diverge.
    proof fn lemma_tokens_unique(&self)
        requires
            self.wf(),
        ensures
            tokens_unique(self.users()),
    ;

    /// Register a new account. Fails with `UsernameTaken` exactly when the
    /// username is already registered; on success the store gains exactly one
    /// account, holding a digest that matches the given password and an
    /// identity token no existing account holds. On any failure the store is
    /// unchanged.
    fn create_user(&mut self, username: String, password: String) -> (r: Result<(), AuthError>)
        requires
            old(self).wf(),
        ensures
            final(self).wf(),
            r is Ok ==> !old(self).users().contains_key(username@) && final(self).users() == old(
                self,
            ).users().insert(username@, final(self).users()[username@]) && digest_matches(
                password@,
                final(self).users()[username@].digest,
            ) && (forall|u: Seq<char>|
                old(self).users().contains_key(u) ==> final(self).users()[username@].token != old(
                    self,
                ).users()[u].token),
            r is Err ==> final(self).users() == old(self).users(),
            old(self).users().contains_key(username@) ==> r == Err::<(), AuthError>(
                AuthError::UsernameTaken,
            ),
            r matches Err(e) ==> (e == AuthError::UsernameTaken <==> old(
                self,
            ).users().contains_key(username@)),
    ;

    /// Authenticate: answer the identity token exactly when `username` is
    /// registered and `password` matches its stored digest. An unknown
    /// username and a wrong password both answer `None`, indistinguishably.
    fn get_user_uuid(&self, username: String, password: String) -> (r: Option<String>)
        requires
            self.wf(),
        ensures
            r.deep_view() == lookup_token(self.users(), username@, password@),
    ;

    /// Delete the account holding identity token `user_uuid`, atomically from
    /// both lookup directions; an absent token is a silent no-op.
    fn delete_user(&mut self, user_uuid: String)
        requires
            old(self).wf(),
        ensures
            final(self).wf(),
            final(self).users() == remove_by_token(old(self).users(), user_uuid@),
    ;
}

/// In a duplicate-free sequence, `index_of` answers the one index that holds
/// a value.
proof fn lemma_index_of_unique(s: Seq<Seq<char>>, x: Seq<char>, i: int)
    requires
        s.no_duplicates(),
        0 <= i < s.len(),
        s[i] == x,
    ensures
        s.index_of(x) == i,
{
    assert(exists|k: int| 0 <= k < s.len() && s[k] == x);
    let j = s.index_of(x);
    assert(0 <= j < s.len() && s[j] == x);
}

/// The in-memory credential store: one arena of owned records. Both lookup
/// directions read the same arena, so they can never diverge.
pub struct UsersImpl {
    records: Vec<User>,
}

impl UsersImpl {
    /// The stored usernames, in arena order.
    pub closed spec fn unames(&self) -> Seq<Seq<char>> {
        self.records@.map_values(|u: User| u.name())
    }

    /// The stored identity tokens, in arena order.
    pub closed spec fn toks(&self) -> Seq<Seq<char>> {
        self.records@.map_values(|u: User| u.rec().token)
    }

    /// An empty store: no usernames, no tokens.
    pub fn new() -> (r: UsersImpl)
        ensures
            r.wf(),
            r.users() == Map::<Seq<char>, UserRec>::empty(),
    {
        let r = UsersImpl { records: Vec::new() };
        proof {
            assert(r.unames() =~= Seq::<Seq<char>>::empty());
            assert(r.toks() =~= Seq::<Seq<char>>::empty());
            assert(r.users().dom() =~= Set::<Seq<char>>::empty());
            assert(r.users() =~= Map::<Seq<char>, UserRec>::empty());
        }
        r
    }

    /// The number of registered accounts; the abstract state holds exactly
    /// one entry per stored record.
    pub fn user_count(&self) -> (n: usize)
        requires
            self.wf(),
        ensures
            n as nat == self.users().dom().len(),
    {
        proof {
            assert(self.users().dom() =~= self.unames().to_set());
            self.unames().unique_seq_to_set();
        }
        self.records.len()
    }

    /// The arena slot holding `username`, if any.
    fn find_username(&self, username: &String) -> (r: Option<usize>)
        ensures
            r matches Some(i) ==> (i as int) < self.records@.len() && self.unames()[i as int]
                == username@,
            r is None ==> !self.unames().contains(username@),
    {
        let n = self.records.len();
        let mut k: usize = 0;
        while k < n
            invariant
                n == self.records@.len(),
                k <= n,
                forall|j: int| 0 <= j < k ==> self.unames()[j] != username@,
            decreases n - k,
        {
            if self.records[k].username == *username {
                return Some(k);
            }
            k += 1;
        }
        None
    }

    /// The arena slot holding identity token `token`, if any.
    fn find_token(&self, token: &String) -> (r: Option<usize>)
        ensures
            r matches Some(i) ==> (i as int) < self.records@.len() && self.toks()[i as int]
                == token@,
            r is None ==> !self.toks().contains(token@),
    {
        let n = self.records.len();
        let mut k: usize = 0;
        while k < n
            invariant
                n == self.records@.len(),
                k <= n,
                forall|j: int| 0 <= j < k ==> self.toks()[j] != token@,
            decreases n - k,
        {
            if self.records[k].user_uuid == *token {
                return Some(k);
            }
            k += 1;
        }
        None
    }

    /// Every arena slot is visible in the abstract state under its username.
    proof fn lemma_view_at(&self, i: int)
        requires
            self.wf(),
            0 <= i < self.records@.len(),
        ensures
            self.users().contains_key(self.unames()[i]),
            self.users()[self.unames()[i]] == self.records@[i].rec(),
    {
        assert(self.unames().contains(self.unames()[i]));
        lemma_index_of_unique(self.unames(), self.unames()[i], i);
    }

    /// Every key of the abstract state names an arena slot.
    proof fn lemma_view_key(&self, u: Seq<char>)
        requires
            self.wf(),
            self.users().contains_key(u),
        ensures
            0 <= self.unames().index_of(u) < self.records@.len(),
            self.unames()[self.unames().index_of(u)] == u,
            self.users()[u] == self.records@[self.unames().index_of(u)].rec(),
            self.users()[u].token == self.toks()[self.unames().index_of(u)],
    {
        assert(self.unames().contains(u));
        let i = self.unames().index_of(u);
        assert(0 <= i < self.unames().len() && self.unames()[i] == u);
    }

    /// A token found in no arena slot belongs to no account of the abstract
    /// state.
    proof fn lemma_token_absent(&self, t: Seq<char>)
        requires
            self.wf(),
            !self.toks().contains(t),
        ensures
            forall|u: Seq<char>| #[trigger]
                self.users().contains_key(u) ==> self.users()[u].token != t,
    {
        assert forall|u: Seq<char>| #[trigger]
            self.users().contains_key(u) implies self.users()[u].token != t by {
            self.lemma_view_key(u);
            let i = self.unames().index_of(u);
            if self.users()[u].token == t {
                assert(self.toks()[i] == t);
                assert(self.toks().contains(t));
            }
        }
    }

    /// Pushing a record with a fresh username and a fresh token inserts
    /// exactly that account into the abstract state.
    proof fn lemma_view_push(pre: Self, post: Self, user: User)
        requires
            pre.wf(),
            !pre.unames().contains(user.name()),
            !pre.toks().contains(user.rec().token),
            post.records@ == pre.records@.push(user),
        ensures
            post.wf(),
            post.users() == pre.users().insert(user.name(), user.rec()),
    {
        let n = pre.records@.len() as int;
        assert(post.unames() =~= pre.unames().push(user.name()));
        assert(post.toks() =~= pre.toks().push(user.rec().token));
        assert forall|i: int, j: int|
            0 <= i < post.unames().len() && 0 <= j < post.unames().len() && i
                != j implies post.unames()[i] != post.unames()[j] by {
            if i == n && 0 <= j < n {
                if post.unames()[i] == post.unames()[j] {
                    assert(pre.unames()[j] == user.name());
                    assert(pre.unames().contains(user.name()));
                }
            } else if j == n && 0 <= i < n {
                if post.unames()[i] == post.unames()[j] {
                    assert(pre.unames()[i] == user.name());
                    assert(pre.unames().contains(user.name()));
                }
            }
        }
        assert forall|i: int, j: int|
            0 <= i < post.toks().len() && 0 <= j < post.toks().len() && i != j implies post.toks()[i]
            != post.toks()[j] by {
            if i == n && 0 <= j < n {
                if post.toks()[i] == post.toks()[j] {
                    assert(pre.toks()[j] == user.rec().token);
                    assert(pre.toks().contains(user.rec().token));
                }
            } else if j == n && 0 <= i < n {
                if post.toks()[i] == post.toks()[j] {
                    assert(pre.toks()[i] == user.rec().token);
                    assert(pre.toks().contains(user.rec().token));
                }
            }
        }
        assert(post.unames().no_duplicates());
        assert(post.toks().no_duplicates());
        let m2 = pre.users().insert(user.name(), user.rec());
        assert forall|u: Seq<char>| post.unames().contains(u) implies m2.contains_key(u) by {
            let i = choose|i: int| 0 <= i < post.unames().len() && post.unames()[i] == u;
            if i < n {
                assert(pre.unames()[i] == u);
                assert(pre.unames().contains(u));
            } else {
                assert(u == user.name());
            }
        }
        assert forall|u: Seq<char>| m2.contains_key(u) implies post.unames().contains(u) by {
            if u == user.name() {
                assert(post.unames()[n] == u);
            } else {
                assert(pre.users().contains_key(u));
                assert(pre.unames().contains(u));
                let i = choose|i: int| 0 <= i < pre.unames().len() && pre.unames()[i] == u;
                assert(post.unames()[i] == u);
            }
        }
        assert forall|u: Seq<char>| #[trigger] m2.contains_key(u) implies post.users()[u] == m2[u] by {
            if u == user.name() {
                lemma_index_of_unique(post.unames(), u, n);
                assert(post.records@[n] == user);
            } else {
                pre.lemma_view_key(u);
                let i = pre.unames().index_of(u);
                assert(post.unames()[i] == u);
                lemma_index_of_unique(post.unames(), u, i);
                assert(post.records@[i] == pre.records@[i]);
            }
        }
        assert(post.users().dom() =~= m2.dom());
        assert(post.users() =~= m2);
    }

    /// Removing an arena slot deletes exactly that slot's account — the one
    /// holding the slot's token — from the abstract state.
    proof fn lemma_view_remove(pre: Self, post: Self, i: int)
        requires
            pre.wf(),
            0 <= i < pre.records@.len(),
            post.records@ == pre.records@.remove(i),
        ensures
            post.wf(),
            post.users() == remove_by_token(pre.users(), pre.records@[i].rec().token),
    {
        let n = pre.records@.len() as int;
        let t = pre.records@[i].rec().token;
        assert(post.unames() =~= pre.unames().remove(i));
        assert(post.toks() =~= pre.toks().remove(i));
        assert forall|a: int, b: int|
            0 <= a < post.unames().len() && 0 <= b < post.unames().len() && a
                != b implies post.unames()[a] != post.unames()[b] by {
            let a0 = if a < i { a } else { a + 1 };
            let b0 = if b < i { b } else { b + 1 };
            assert(post.unames()[a] == pre.unames()[a0]);
            assert(post.unames()[b] == pre.unames()[b0]);
        }
        assert forall|a: int, b: int|
            0 <= a < post.toks().len() && 0 <= b < post.toks().len() && a
                != b implies post.toks()[a] != post.toks()[b] by {
            let a0 = if a < i { a } else { a + 1 };
            let b0 = if b < i { b } else { b + 1 };
            assert(post.toks()[a] == pre.toks()[a0]);
            assert(post.toks()[b] == pre.toks()[b0]);
        }
        assert(post.unames().no_duplicates());
        assert(post.toks().no_duplicates());
        let m2 = remove_by_token(pre.users(), t);
        assert(pre.toks()[i] == t);
        assert forall|u: Seq<char>| post.unames().contains(u) implies m2.contains_key(u) by {
            let j = choose|j: int| 0 <= j < post.unames().len() && post.unames()[j] == u;
            let j0 = if j < i { j } else { j + 1 };
            assert(pre.unames()[j0] == u);
            assert(pre.unames().contains(u));
            lemma_index_of_unique(pre.unames(), u, j0);
            assert(pre.users().contains_key(u));
            assert(pre.users()[u] == pre.records@[j0].rec());
            assert(pre.toks()[j0] == pre.records@[j0].rec().token);
            assert(pre.toks()[j0] != t);
        }
        assert forall|u: Seq<char>| m2.contains_key(u) implies post.unames().contains(u) by {
            pre.lemma_view_key(u);
            let j0 = pre.unames().index_of(u);
            assert(pre.toks()[j0] == pre.users()[u].token);
            assert(j0 != i);
            let j = if j0 < i { j0 } else { j0 - 1 };
            assert(post.unames()[j] == pre.unames()[j0]);
        }
        assert forall|u: Seq<char>| #[trigger] m2.contains_key(u) implies post.users()[u] == m2[u] by {
            pre.lemma_view_key(u);
            let j0 = pre.unames().index_of(u);
            assert(pre.toks()[j0] == pre.users()[u].token);
            assert(j0 != i);
            let j = if j0 < i { j0 } else { j0 - 1 };
            assert(post.unames()[j] == pre.unames()[j0]);
            lemma_index_of_unique(post.unames(), u, j);
            assert(post.records@[j] == pre.records@[j0]);
        }
        assert(post.users().dom() =~= m2.dom());
        assert(post.users() =~= m2);
    }
}

impl Users for UsersImpl {
    /// Neither a username nor an identity token is stored twice.
    closed spec fn wf(&self) -> bool {
        self.unames().no_duplicates() && self.toks().no_duplicates()
    }

    closed spec fn users(&self) -> UsersMap {
        Map::new(
            |u: Seq<char>| self.unames().contains(u),
            |u: Seq<char>| self.records@[self.unames().index_of(u)].rec(),
        )
    }

    proof fn lemma_tokens_unique(&self) {
        assert forall|u1: Seq<char>, u2: Seq<char>|
            self.users().contains_key(u1) && self.users().contains_key(u2) && u1
                != u2 implies self.users()[u1].token != self.users()[u2].token by {
            self.lemma_view_key(u1);
            self.lemma_view_key(u2);
            let i1 = self.unames().index_of(u1);
            let i2 = self.unames().index_of(u2);
            assert(i1 != i2);
        }
    }

    fn create_user(&mut self, username: String, password: String) -> (r: Result<(), AuthError>) {
        match self.find_username(&username) {
            Some(i) => {
                proof {
                    self.lemma_view_at(i as int);
                }
                return Err(AuthError::UsernameTaken);
            },
            None => {},
        }
        let digest = match hash_password(password.as_str()) {
            Ok(d) => d,
            Err(_) => {
                return Err(AuthError::HashingError);
            },
        };
        let mut attempts: usize = 0;
        while attempts < MAX_TOKEN_ATTEMPTS
            invariant
                *self == *old(self),
                old(self).wf(),
                !old(self).unames().contains(username@),
                digest_matches(password@, digest@),
            decreases MAX_TOKEN_ATTEMPTS - attempts,
        {
            let token = generate_token();
            let ghost tview = token@;
            match self.find_token(&token) {
                None => {
                    let user = User {
                        user_uuid: token,
                        username: username.clone(),
                        password: digest.clone(),
                    };
                    let ghost pre = *self;
                    let ghost guser = user;
                    self.records.push(user);
                    proof {
                        assert(guser.name() == username@);
                        assert(guser.rec().token == tview);
                        assert(guser.rec().digest == digest@);
                        UsersImpl::lemma_view_push(pre, *self, guser);
                        pre.lemma_token_absent(tview);
                        assert(self.users()[username@] == guser.rec());
                    }
                    return Ok(());
                },
                Some(_) => {},
            }
            attempts += 1;
        }
        Err(AuthError::IdentityCollision)
    }

    fn get_user_uuid(&self, username: String, password: String) -> (r: Option<String>) {
        match self.find_username(&username) {
            None => {
                proof {
                    assert(!self.users().contains_key(username@));
                }
                None
            },
            Some(i) => {
                proof {
                    self.lemma_view_at(i as int);
                }
                if verify_password(password.as_str(), self.records[i].password.as_str()) {
                    Some(self.records[i].user_uuid.clone())
                } else {
                    None
                }
            },
        }
    }

    fn delete_user(&mut self, user_uuid: String) {
        match self.find_token(&user_uuid) {
            None => {
                proof {
                    self.lemma_token_absent(user_uuid@);
                    assert(remove_by_token(self.users(), user_uuid@).dom() =~= self.users().dom());
                    assert(remove_by_token(self.users(), user_uuid@) =~= self.users());
                }
            },
            Some(i) => {
                let ghost pre = *self;
                self.records.remove(i);
                proof {
                    UsersImpl::lemma_view_remove(pre, *self, i as int);
                }
            },
        }
    }
}

impl Default for UsersImpl {
    /// The empty store.
    fn default() -> (r: UsersImpl)
        ensures
            r.wf(),
            r.users() == Map::<Seq<char>, UserRec>::empty(),
    {
        UsersImpl::new()
    }
}

} // verus!
