//! The mathematical model of the credential store: the abstract state the
//! public contracts speak of, and the observations the operations make on it.

use vstd::prelude::*;

use crate::hashing::digest_matches;

verus! {

/// The mathematical content of one registered account: its durable identity
/// token and its stored password digest, both as character sequences.
pub ghost struct UserRec {
    pub token: Seq<char>,
    pub digest: Seq<char>,
}

/// The store as its callers see it: a map from username to account record.
pub type UsersMap = Map<Seq<char>, UserRec>;

/// What authentication observes: `Some(token)` exactly when the username is
/// registered and the candidate password matches its stored digest. An
/// unknown username and a wrong password produce the same `None`.
pub open spec fn lookup_token(m: UsersMap, username: Seq<char>, password: Seq<char>) -> Option<
    Seq<char>,
> {
    if m.contains_key(username) && digest_matches(password, m[username].digest) {
        Some(m[username].token)
    } else {
        None
    }
}

/// The store after a deletion by identity token: every account whose token is
/// not the deleted one, unchanged; the account holding that token, gone.
pub open spec fn remove_by_token(m: UsersMap, token: Seq<char>) -> UsersMap {
    Map::new(|u: Seq<char>| m.contains_key(u) && m[u].token != token, |u: Seq<char>| m[u])
}

/// No two registered accounts share an identity token: looking an account up
/// by token can never disagree with looking it up by username.
pub open spec fn tokens_unique(m: UsersMap) -> bool {
    forall|u1: Seq<char>, u2: Seq<char>|
        m.contains_key(u1) && m.contains_key(u2) && u1 != u2 ==> m[u1].token != m[u2].token
}

} // verus!
