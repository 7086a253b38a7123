//! Rows of the service database: services, active sessions, user accounts
//! and invitation keys.

use vstd::prelude::*;

verus! {

/// A service that sessions can be started for.
#[derive(Debug)]
pub struct Service {
    pub id: i32,
    pub name: String,
    pub description: Option<String>,
}

/// A running (or starting) session of a user, as stored.
#[derive(Debug)]
pub struct ActiveSession {
    pub id: i32,
    pub user: String,
    pub service_id: i32,
    pub docker_id: Option<String>,
    pub container_ip: Option<String>,
    pub port: Option<i32>,
    pub unix_created_at: i64,
}

/// A session row about to be inserted.
#[derive(Debug)]
pub struct NewActiveSession {
    pub user: String,
    pub service_id: i32,
    pub port: Option<i32>,
    pub unix_created_at: i64,
}

/// A user account as stored: the password field holds a password hash.
#[derive(Debug)]
pub struct User {
    pub username: String,
    pub password: Option<String>,
    pub role: String,
}

/// A user account about to be inserted.
#[derive(Debug)]
pub struct NewUser {
    pub username: String,
    pub password: Option<String>,
    pub role: String,
}

/// An invitation key that allows one signup.
#[derive(Debug)]
pub struct InviteKey {
    pub inv_key: String,
    pub unix_created_at: i64,
}

/// Errors of the store operations whose decisions the library makes.
#[derive(Debug, PartialEq, Eq, Structural)]
pub enum StoreError {
    /// The row looked for does not exist, or nothing was left to hand out.
    NotFound,
}

/// The view of an optional string.
pub open spec fn opt_view(s: Option<String>) -> Option<Seq<char>> {
    match s {
        Some(t) => Some(t@),
        None => None,
    }
}

/// Copies an optional string.
pub fn copy_opt_string(s: &Option<String>) -> (r: Option<String>)
    ensures
        r == *s,
{
    match s {
        Some(t) => Some(t.clone()),
        None => None,
    }
}

impl ActiveSession {
    /// A field-by-field copy of the session.
    pub fn duplicate(&self) -> (r: ActiveSession)
        ensures
            r == *self,
    {
        ActiveSession {
            id: self.id,
            user: self.user.clone(),
            service_id: self.service_id,
            docker_id: copy_opt_string(&self.docker_id),
            container_ip: copy_opt_string(&self.container_ip),
            port: self.port,
            unix_created_at: self.unix_created_at,
        }
    }
}

} // verus!
