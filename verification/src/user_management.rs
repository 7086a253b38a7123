//! Accounts and invitation keys: password hashing and checking, the rows
//! that signup and account updates write, and fresh invitation keys.

use vstd::prelude::*;
use crate::models::{InviteKey, NewUser};
use crate::text::str_eq;

verus! {

/// The error type of `password_auth::verify_password`.
#[verifier::external_type_specification]
#[verifier::external_body]
pub struct ExVerifyError(password_auth::VerifyError);

/// Whether `password` verifies against the PHC hash string `hash`, as
/// `password_auth::verify_password` decides it (the hash must parse, and the
/// password must hash to it under the algorithm and salt the string names).
pub uninterp spec fn password_verifies(password: Seq<char>, hash: Seq<char>) -> bool;

/// Calls `password_auth::verify_password`. Claimed: the call returns `Ok`
/// exactly when `password_verifies(password, hash)`; which error comes back
/// otherwise (unparsable hash or wrong password) is not stated.
#[verifier::external_body]
fn verify_password(password: &str, hash: &str) -> (res: Result<(), password_auth::VerifyError>)
    ensures
        res is Ok <==> password_verifies(password@, hash@),
{
    password_auth::verify_password(password, hash)
}

/// Calls `password_auth::generate_hash`, which salts at random. Claimed:
/// the password verifies against the hash it returns (the crate's own tests
/// check exactly this). Nothing else is said of the hash, since it depends on
/// the random salt. The call panics only for passwords longer than
/// `u32::MAX` bytes, which the precondition leaves out.
#[verifier::external_body]
fn generate_hash(password: &str) -> (hash: String)
    requires
        password.len() <= 0xFFFF_FFFF,
    ensures
        password_verifies(password@, hash@),
{
    password_auth::generate_hash(password)
}

/// An ASCII letter or digit.
pub open spec fn is_ascii_alphanumeric(c: char) -> bool {
    ('0' <= c && c <= '9') || ('A' <= c && c <= 'Z') || ('a' <= c && c <= 'z')
}

/// Calls `rand::distributions::Alphanumeric.sample_string` on the thread's
/// generator. Claimed, as the crate documents the distribution: `len`
/// characters, each an ASCII letter or digit. Which ones is chance.
#[verifier::external_body]
fn random_alphanumeric(len: usize) -> (s: String)
    ensures
        s@.len() == len,
        forall|i: int| 0 <= i < s@.len() ==> #[trigger] is_ascii_alphanumeric(s@[i]),
{
    rand::distributions::DistString::sample_string(
        &rand::distributions::Alphanumeric,
        &mut rand::thread_rng(),
        len,
    )
}

/// The hash a login compares against: the stored one, or a single space
/// when the account has none.
pub open spec fn stored_hash_or_blank(stored: Option<String>) -> Seq<char> {
    match stored {
        Some(h) => h@,
        None => " "@,
    }
}

/// When a login with `password` is accepted for an account whose stored
/// password field is `stored`: with `as_hash == Some(true)` the given text
/// must equal the stored hash itself; otherwise it must verify against it.
pub open spec fn spec_password_accepted(password: Seq<char>, stored: Option<String>, as_hash: Option<bool>) -> bool {
    if as_hash == Some(true) {
        password == stored_hash_or_blank(stored)
    } else {
        password_verifies(password, stored_hash_or_blank(stored))
    }
}

/// The password check of an account lookup (see `spec_password_accepted`).
pub fn password_accepted(password: &str, stored: &Option<String>, as_hash: Option<bool>) -> (ok: bool)
    ensures
        ok == spec_password_accepted(password@, *stored, as_hash),
{
    let blank = " ";
    let hash: &str = match stored {
        Some(h) => h.as_str(),
        None => blank,
    };
    match as_hash {
        Some(true) => str_eq(password, hash),
        _ => verify_password(password, hash).is_ok(),
    }
}

/// The account that signing up as `username` with `password` creates: an
/// ordinary user whose stored password is a fresh hash of `password`.
pub fn new_user_record(username: &str, password: &str) -> (u: NewUser)
    requires
        password.len() <= 0xFFFF_FFFF,
    ensures
        u.username@ == username@,
        u.role@ == "user"@,
        u.password matches Some(h) && password_verifies(password@, h@),
{
    let hash = generate_hash(password);
    NewUser {
        username: String::from_str(username),
        password: Some(hash),
        role: String::from_str("user"),
    }
}

/// What an account update writes: the new name, if one is given, and a
/// fresh hash of the new password, if one is given.
pub struct UserUpdate {
    pub new_username: Option<String>,
    pub new_password_hash: Option<String>,
}

/// The changes that `update_user` applies, in that order: first the name,
/// then the password hash.
pub fn plan_user_update(new_username: Option<&str>, new_password: Option<&str>) -> (u: UserUpdate)
    requires
        new_password matches Some(p) ==> p.len() <= 0xFFFF_FFFF,
    ensures
        new_username is Some <==> u.new_username is Some,
        new_username matches Some(n) ==> u.new_username->0@ == n@,
        new_password is Some <==> u.new_password_hash is Some,
        new_password matches Some(p) ==> password_verifies(p@, u.new_password_hash->0@),
{
    let name = match new_username {
        Some(n) => Some(String::from_str(n)),
        None => None,
    };
    let hash = match new_password {
        Some(p) => Some(generate_hash(p)),
        None => None,
    };
    UserUpdate { new_username: name, new_password_hash: hash }
}

/// The length of an invitation key.
pub const INVITE_KEY_LEN: usize = 64;

/// A fresh invitation key: `INVITE_KEY_LEN` random ASCII letters and digits,
/// stamped with the creation time.
pub fn new_invite_key(unix_created_at: i64) -> (k: InviteKey)
    ensures
        k.inv_key@.len() == INVITE_KEY_LEN,
        forall|i: int| 0 <= i < k.inv_key@.len() ==> #[trigger] is_ascii_alphanumeric(k.inv_key@[i]),
        k.unix_created_at == unix_created_at,
{
    InviteKey { inv_key: random_alphanumeric(INVITE_KEY_LEN), unix_created_at }
}

/// What to do with a freshly drawn invitation key once the store has been
/// asked for it.
pub enum KeyAction {
    /// The store holds no such key: insert this one and hand it out.
    Insert(InviteKey),
    /// The key is taken: draw another one.
    Retry,
}

/// The decision of creating an invitation key: a key the store already
/// holds is drawn again; one it does not hold is inserted and handed out,
/// unchanged.
pub fn key_step(candidate: InviteKey, lookup_found: bool) -> (a: KeyAction)
    ensures
        lookup_found ==> a is Retry,
        !lookup_found ==> a == KeyAction::Insert(candidate),
{
    if lookup_found {
        KeyAction::Retry
    } else {
        KeyAction::Insert(candidate)
    }
}

/// A user who signed up with a password can log in with that same password:
/// the lookup that a login makes accepts it against the stored hash.
pub proof fn lemma_signup_then_login(password: Seq<char>, account: NewUser)
    requires
        account.password matches Some(h) && password_verifies(password, h@),
    ensures
        spec_password_accepted(password, account.password, Some(false)),
        spec_password_accepted(password, account.password, None),
{
}

} // verus!
