//! Registration of sessions: which port a new session gets, and the row
//! that records it.

use vstd::prelude::*;
use crate::models::{NewActiveSession, StoreError};

verus! {

/// The ports handed to sessions: from the first number up to, but not
/// including, the second.
pub const SERVICE_PORT_RANGE: (i32, i32) = (6001, 9000);

/// `p` is the lowest port of the range that `used` does not hold.
pub open spec fn is_first_free_port(used: Seq<i32>, p: i32) -> bool {
    &&& SERVICE_PORT_RANGE.0 <= p < SERVICE_PORT_RANGE.1
    &&& !used.contains(p)
    &&& forall|q: i32| SERVICE_PORT_RANGE.0 <= q < p ==> used.contains(q)
}

/// Every port of the range is in `used`.
pub open spec fn all_ports_used(used: Seq<i32>) -> bool {
    forall|q: i32| SERVICE_PORT_RANGE.0 <= q < SERVICE_PORT_RANGE.1 ==> used.contains(q)
}

fn contains_port(used: &Vec<i32>, p: i32) -> (r: bool)
    ensures
        r == used@.contains(p),
{
    let mut i: usize = 0;
    while i < used.len()
        invariant
            i <= used.len(),
            forall|j: int| 0 <= j < i ==> used@[j] != p,
        decreases used.len() - i,
    {
        if used[i] == p {
            assert(used@[i as int] == p);
            return true;
        }
        i = i + 1;
    }
    false
}

/// The lowest port of `SERVICE_PORT_RANGE` that no session holds yet, or
/// `None` when every port of the range is taken.
pub fn choose_session_port(used: &Vec<i32>) -> (res: Option<i32>)
    ensures
        match res {
            Some(p) => is_first_free_port(used@, p),
            None => all_ports_used(used@),
        },
{
    let mut p: i32 = SERVICE_PORT_RANGE.0;
    while p < SERVICE_PORT_RANGE.1
        invariant
            SERVICE_PORT_RANGE.0 <= p <= SERVICE_PORT_RANGE.1,
            forall|q: i32| SERVICE_PORT_RANGE.0 <= q < p ==> used@.contains(q),
        decreases SERVICE_PORT_RANGE.1 - p,
    {
        if !contains_port(used, p) {
            return Some(p);
        }
        p = p + 1;
    }
    None
}

/// The port part of registering a session: no port when none is asked for,
/// else the lowest free port of the range (see `choose_session_port`), and
/// `NotFound` when the range is used up.
pub fn register_session_port(register_port: bool, used: &Vec<i32>) -> (res: Result<Option<i32>, StoreError>)
    ensures
        !register_port ==> res == Ok::<Option<i32>, StoreError>(None),
        register_port ==> match res {
            Ok(Some(p)) => is_first_free_port(used@, p),
            Ok(None) => false,
            Err(e) => e == StoreError::NotFound && all_ports_used(used@),
        },
{
    if !register_port {
        return Ok(None);
    }
    match choose_session_port(used) {
        Some(p) => Ok(Some(p)),
        None => Err(StoreError::NotFound),
    }
}

/// The row recording a new session of `user` for `service`.
pub fn new_active_session(user: &str, service: i32, port: Option<i32>, unix_created_at: i64) -> (s: NewActiveSession)
    ensures
        s.user@ == user@,
        s.service_id == service,
        s.port == port,
        s.unix_created_at == unix_created_at,
{
    NewActiveSession { user: String::from_str(user), service_id: service, port, unix_created_at }
}

/// A port handed out is free; a second registration made right after the
/// first, with the first port now in use, gets a different, higher port.
pub proof fn lemma_consecutive_ports_distinct(used: Seq<i32>, p1: i32, p2: i32)
    requires
        is_first_free_port(used, p1),
        is_first_free_port(used.push(p1), p2),
    ensures
        !used.contains(p1),
        p1 < p2,
{
    assert(used.push(p1).contains(p1)) by {
        assert(used.push(p1)[used.len() as int] == p1);
    }
    if p2 < p1 {
        assert(used.contains(p2));
        assert(used.push(p1).contains(p2)) by {
            let k = choose|k: int| 0 <= k < used.len() && used[k] == p2;
            assert(used.push(p1)[k] == p2);
        }
    }
}

} // verus!
