//! Who may do what: logged-in users, administrators, and access to a
//! running session through the reverse proxy.

use vstd::prelude::*;
use vstd::utf8::encode_utf8;
use crate::models::{ActiveSession, opt_view};
use crate::session::is_gtk_session;
use crate::text::{
    get_element_from_back, parse_i64, spec_element_from_back, spec_parse_i64, split_on,
    lemma_split_on_nonempty, str_eq, int_decimal, lemma_nat_decimal, is_digit,
    nat_decimal,
};

verus! {

/// The fields of the login and signup forms.
pub struct LoginForm {
    pub username: String,
    pub password: String,
    pub invite_key: Option<String>,
}

/// A logged-in user.
pub struct User {
    pub username: String,
    pub role: String,
}

/// A logged-in administrator.
pub struct AdminGuard {
    pub user: User,
}

/// A user allowed to reach one of their running sessions.
pub struct SessionGuard {
    pub user: User,
    pub used_port: u32,
    pub used_ip: String,
}

impl User {
    /// The logged-in user of a stored account.
    pub fn from_account(account: crate::models::User) -> (u: User)
        ensures
            u.username == account.username,
            u.role == account.role,
    {
        User { username: account.username, role: account.role }
    }
}

impl AdminGuard {
    /// Administrator rights, for a user whose role is "admin" and no other.
    pub fn for_user(user: User) -> (g: Option<AdminGuard>)
        ensures
            g is Some <==> user.role@ == "admin"@,
            g matches Some(a) ==> a.user == user,
    {
        if str_eq(user.role.as_str(), "admin") {
            Some(AdminGuard { user })
        } else {
            None
        }
    }
}

/// The length check that `port_in_origin` makes on the last piece of the
/// URI: it compares the bitwise complement of the byte length, so it only
/// rejects pieces within 5 bytes of `usize::MAX`.
pub open spec fn length_guard_trips(len: usize) -> bool {
    !len < 5 && len > 0
}

/// The port that an original URI names: its last '/'-separated piece read as
/// an `i64`.
pub open spec fn spec_port_in_origin(origin: Seq<char>) -> Option<int> {
    let last = spec_element_from_back(origin, 1)->0;
    if length_guard_trips(encode_utf8(last).len() as usize) {
        None
    } else {
        spec_parse_i64(last)
    }
}

/// The port that ends an original URI (see `spec_port_in_origin`).
pub fn port_in_origin(origin: &str) -> (res: Result<i64, ()>)
    ensures
        match spec_port_in_origin(origin@) {
            Some(p) => res == Ok::<i64, ()>(p as i64),
            None => res is Err,
        },
{
    proof {
        lemma_split_on_nonempty(origin@, '/');
    }
    let last_part = match get_element_from_back(origin, 1) {
        Ok(p) => p,
        Err(()) => return Err(()),
    };
    if !last_part.len() < 5 && last_part.len() > 0 {
        return Err(());
    }
    match parse_i64(last_part) {
        Some(p) => Ok(p),
        None => Err(()),
    }
}

proof fn lemma_encode_utf8_len(s: Seq<char>)
    ensures
        encode_utf8(s).len() <= 4 * s.len(),
    decreases s.len(),
{
    if s.len() > 0 {
        lemma_encode_utf8_len(s.drop_first());
    }
}

/// The last '/'-separated piece of a text ending in '/' and a piece free of
/// '/' is that piece.
pub proof fn lemma_split_last_piece(a: Seq<char>, t: Seq<char>)
    requires
        forall|i: int| 0 <= i < t.len() ==> t[i] != '/',
    ensures
        split_on(a + seq!['/'] + t, '/').last() == t,
    decreases t.len(),
{
    let s = a + seq!['/'] + t;
    if t.len() == 0 {
        assert(s.drop_last() =~= a);
        assert(s.last() == '/');
        assert(split_on(s, '/') == split_on(a, '/').push(Seq::<char>::empty()));
    } else {
        lemma_split_last_piece(a, t.drop_last());
        assert(s.drop_last() =~= a + seq!['/'] + t.drop_last());
        assert(s.last() == t.last());
        lemma_split_on_nonempty(s.drop_last(), '/');
        let prev = split_on(s.drop_last(), '/');
        assert(t.last() != '/');
        assert(split_on(s, '/') == prev.update(prev.len() - 1, prev.last().push(s.last())));
        assert(t.drop_last().push(t.last()) =~= t);
    }
}

spec fn pow10(k: nat) -> nat
    decreases k,
{
    if k == 0 {
        1
    } else {
        10 * pow10((k - 1) as nat)
    }
}

proof fn lemma_decimal_len_pow(m: nat, k: nat)
    requires
        k >= 1,
        m < pow10(k),
    ensures
        nat_decimal(m).len() <= k,
    decreases k,
{
    if m >= 10 {
        if k == 1 {
            assert(pow10(1) == 10 * pow10(0));
        } else {
            let q = pow10((k - 1) as nat);
            assert(pow10(k) == 10 * q);
            assert(m / 10 < q) by (nonlinear_arith)
                requires
                    m < 10 * q,
                    m >= 10,
            ;
            lemma_decimal_len_pow(m / 10, (k - 1) as nat);
        }
    }
}

proof fn lemma_decimal_len(m: nat)
    requires
        m <= 9223372036854775808,
    ensures
        nat_decimal(m).len() <= 19,
{
    assert(pow10(0) == 1nat);
    assert(pow10(1) == 10nat);
    assert(pow10(2) == 100nat);
    assert(pow10(3) == 1000nat);
    assert(pow10(4) == 10000nat);
    assert(pow10(5) == 100000nat);
    assert(pow10(6) == 1000000nat);
    assert(pow10(7) == 10000000nat);
    assert(pow10(8) == 100000000nat);
    assert(pow10(9) == 1000000000nat);
    assert(pow10(10) == 10000000000nat);
    assert(pow10(11) == 100000000000nat);
    assert(pow10(12) == 1000000000000nat);
    assert(pow10(13) == 10000000000000nat);
    assert(pow10(14) == 100000000000000nat);
    assert(pow10(15) == 1000000000000000nat);
    assert(pow10(16) == 10000000000000000nat);
    assert(pow10(17) == 100000000000000000nat);
    assert(pow10(18) == 1000000000000000000nat);
    assert(pow10(19) == 10000000000000000000nat);
    lemma_decimal_len_pow(m, 19);
}

/// The port that a proxied request is for: the one its original URI ends
/// in, else the one of its `session_port` cookie (read as an `i64`), cut to
/// 32 bits; none without an original URI or when neither gives a number.
pub open spec fn spec_session_port(uri: Option<Seq<char>>, port_cookie: Option<Seq<char>>) -> Option<i32> {
    match uri {
        None => None,
        Some(u) => match spec_port_in_origin(u) {
            Some(p) => Some(p as i32),
            None => match port_cookie {
                Some(c) => match spec_parse_i64(c) {
                    Some(p) => Some(p as i32),
                    None => None,
                },
                None => None,
            },
        },
    }
}

/// The container address that a proxied request is for: its
/// `session_destination` cookie, else the piece of the original URI before
/// the port.
pub open spec fn spec_session_destination(uri: Option<Seq<char>>, destination_cookie: Option<Seq<char>>) -> Option<Seq<char>> {
    match destination_cookie {
        Some(d) => Some(d),
        None => match uri {
            Some(u) => spec_element_from_back(u, 2),
            None => None,
        },
    }
}

/// The view of an optional string slice.
pub open spec fn opt_str(s: Option<&str>) -> Option<Seq<char>> {
    match s {
        Some(t) => Some(t@),
        None => None,
    }
}

/// The port and address that a proxied request asks for (see
/// `spec_session_port` and `spec_session_destination`); `None` when it names
/// no port, in which case the request is passed on unauthorized.
pub fn session_target(original_uri: Option<&str>, port_cookie: Option<&str>, destination_cookie: Option<&str>) -> (res: Option<(i32, Option<String>)>)
    ensures
        match spec_session_port(opt_str(original_uri), opt_str(port_cookie)) {
            Some(p) => res matches Some(t) && t.0 == p && opt_view(t.1) == spec_session_destination(
                opt_str(original_uri),
                opt_str(destination_cookie),
            ),
            None => res is None,
        },
{
    let uri = match original_uri {
        Some(u) => u,
        None => return None,
    };
    let port: i32 = match port_in_origin(uri) {
        Ok(p) => p as i32,
        Err(()) => match port_cookie {
            Some(c) => match parse_i64(c) {
                Some(p) => p as i32,
                None => return None,
            },
            None => return None,
        },
    };
    let client_ip = match destination_cookie {
        Some(d) => Some(String::from_str(d)),
        None => match get_element_from_back(uri, 2) {
            Ok(piece) => Some(String::from_str(piece)),
            Err(()) => None,
        },
    };
    Some((port, client_ip))
}

/// A session that a request for `port` at `client_ip` may reach: a GTK
/// session on that port whose container address is `client_ip` (both absent
/// counts as equal).
pub open spec fn grants_access(s: ActiveSession, port: i32, client_ip: Option<Seq<char>>) -> bool {
    &&& is_gtk_session(s)
    &&& s.port == Some(port)
    &&& opt_view(s.container_ip) == client_ip
}

/// A session grants access exactly when it is a GTK 3 (service 2) or GTK 4
/// (service 1) session on the requested port whose address is the
/// requested one: sessions of both GTK services are reachable.
pub proof fn lemma_grants_access_exactly(s: ActiveSession, port: i32, client_ip: Option<Seq<char>>)
    ensures
        grants_access(s, port, client_ip) <==> ((s.service_id == 2 || s.service_id == 1) && s.port == Some(port)
            && opt_view(s.container_ip) == client_ip),
{
}

fn opt_string_eq(a: &Option<String>, b: &Option<String>) -> (r: bool)
    ensures
        r == (opt_view(*a) == opt_view(*b)),
{
    match (a, b) {
        (Some(x), Some(y)) => str_eq(x.as_str(), y.as_str()),
        (None, None) => true,
        _ => false,
    }
}

/// Access to a running session, for a user whose sessions are `sessions`:
/// granted through the first session that `grants_access` for the requested
/// port and address, and refused when there is none. The user keeps their
/// identity; the guard records the port and that session's address.
pub fn authorize_session(user: User, sessions: &Vec<ActiveSession>, port: i32, client_ip: &Option<String>) -> (res: Option<SessionGuard>)
    requires
        client_ip is None ==> forall|i: int|
            0 <= i < sessions@.len() && is_gtk_session(#[trigger] sessions@[i]) && sessions@[i].port
                == Some(port) ==> sessions@[i].container_ip is Some,
    ensures
        match res {
            Some(g) => exists|i: int|
                #![trigger sessions@[i]]
                0 <= i < sessions@.len() && grants_access(sessions@[i], port, opt_view(*client_ip))
                    && (forall|j: int| 0 <= j < i ==> !grants_access(sessions@[j], port, opt_view(*client_ip)))
                    && g.used_ip@ == sessions@[i].container_ip->0@ && g.user == user && g.used_port
                    == port as u32,
            None => forall|i: int|
                0 <= i < sessions@.len() ==> !grants_access(#[trigger] sessions@[i], port, opt_view(*client_ip)),
        },
        res is Some <==> exists|i: int|
            #![trigger sessions@[i]]
            0 <= i < sessions@.len() && (sessions@[i].service_id == 2 || sessions@[i].service_id == 1)
                && sessions@[i].port == Some(port) && opt_view(sessions@[i].container_ip) == opt_view(*client_ip),
        res matches Some(g) ==> ((forall|j: int| 0 <= j < sessions@.len() ==> (#[trigger] sessions@[j]).user@ == user.username@)
            ==> exists|i: int|
            #![trigger sessions@[i]]
            0 <= i < sessions@.len() && sessions@[i].user@ == g.user.username@ && is_gtk_session(sessions@[i])
                && sessions@[i].port == Some(port) && sessions@[i].container_ip == Some(g.used_ip)),
{
    let mut i: usize = 0;
    while i < sessions.len()
        invariant
            i <= sessions.len(),
            forall|j: int| 0 <= j < i ==> !grants_access(#[trigger] sessions@[j], port, opt_view(*client_ip)),
            client_ip is None ==> forall|k: int|
                0 <= k < sessions@.len() && is_gtk_session(#[trigger] sessions@[k]) && sessions@[k].port
                    == Some(port) ==> sessions@[k].container_ip is Some,
        decreases sessions.len() - i,
    {
        let s = &sessions[i];
        let gtk = s.service_id == crate::session::GTK3_SERVICE_ID || s.service_id == crate::session::GTK4_SERVICE_ID;
        let same_port = match s.port {
            Some(p) => p == port,
            None => false,
        };
        if gtk && same_port && opt_string_eq(&s.container_ip, client_ip) {
            let ip = match &s.container_ip {
                Some(c) => c.clone(),
                None => String::new(),
            };
            assert(grants_access(sessions@[i as int], port, opt_view(*client_ip)));
            assert(s.container_ip is Some);
            let g = SessionGuard { user, used_port: port as u32, used_ip: ip };
            assert(g.used_ip@ == sessions@[i as int].container_ip->0@);
            return Some(g);
        }
        i = i + 1;
    }
    None
}

/// Whether granting access would read the address of a matching session
/// that has none: no address was asked for, and a GTK session on the port
/// has no container address (the precondition of `authorize_session`
/// fails exactly then).
pub fn container_address_missing(sessions: &Vec<ActiveSession>, port: i32, client_ip: &Option<String>) -> (r: bool)
    ensures
        r == (client_ip is None && exists|i: int|
            0 <= i < sessions@.len() && is_gtk_session(#[trigger] sessions@[i]) && sessions@[i].port == Some(port)
                && sessions@[i].container_ip is None),
{
    if client_ip.is_some() {
        return false;
    }
    let mut i: usize = 0;
    while i < sessions.len()
        invariant
            i <= sessions.len(),
            client_ip is None,
            forall|j: int|
                0 <= j < i && is_gtk_session(#[trigger] sessions@[j]) && sessions@[j].port == Some(port)
                    ==> sessions@[j].container_ip is Some,
        decreases sessions.len() - i,
    {
        let s = &sessions[i];
        let gtk = s.service_id == crate::session::GTK3_SERVICE_ID || s.service_id == crate::session::GTK4_SERVICE_ID;
        let same_port = match s.port {
            Some(p) => p == port,
            None => false,
        };
        if gtk && same_port && s.container_ip.is_none() {
            assert(is_gtk_session(sessions@[i as int]) && sessions@[i as int].port == Some(port)
                && sessions@[i as int].container_ip is None);
            return true;
        }
        i = i + 1;
    }
    false
}

/// The answer to a login form: with the account found for the name and
/// password, the name to keep in the session cookie; else the message
/// "username or password incorrect".
pub fn login_post(account: Option<crate::models::User>) -> (res: Result<String, String>)
    ensures
        match account {
            Some(a) => res == Ok::<String, String>(a.username),
            None => res matches Err(m) && m@ == "username or password incorrect"@,
        },
{
    match account {
        Some(a) => Ok(a.username),
        None => Err(String::from_str("username or password incorrect")),
    }
}

/// The check a signup form passes before an account is created: it must
/// carry an invitation key (else "A Invitation key is required").
pub fn signup_precheck(form: &LoginForm) -> (res: Result<(), String>)
    ensures
        form.invite_key is Some <==> res is Ok,
        res matches Err(m) ==> m@ == "A Invitation key is required"@,
{
    match &form.invite_key {
        Some(_) => Ok(()),
        None => Err(String::from_str("A Invitation key is required")),
    }
}

/// The answer to a signup once the account creation was tried: go on to the
/// login page, or the message "Could not create user, try another username!".
pub fn signup_post(created: bool) -> (res: Result<(), String>)
    ensures
        created <==> res is Ok,
        res matches Err(m) ==> m@ == "Could not create user, try another username!"@,
{
    if created {
        Ok(())
    } else {
        Err(String::from_str("Could not create user, try another username!"))
    }
}

/// A URI whose last piece is the decimal text of a port names that port.
pub proof fn lemma_port_in_origin_of_decimal(prefix: Seq<char>, p: int)
    requires
        i64::MIN <= p <= i64::MAX,
    ensures
        spec_port_in_origin(prefix + seq!['/'] + int_decimal(p)) == Some(p),
{
    let d = int_decimal(p);
    let m: nat = if p < 0 { (-p) as nat } else { p as nat };
    lemma_nat_decimal(m);
    assert forall|i: int| 0 <= i < d.len() implies d[i] != '/' by {
        if p < 0 {
            if i > 0 {
                assert(d[i] == nat_decimal(m)[i - 1]);
                assert(is_digit(nat_decimal(m)[i - 1]));
            }
        } else {
            assert(is_digit(nat_decimal(m)[i]));
        }
    }
    lemma_split_last_piece(prefix, d);
    lemma_split_on_nonempty(prefix + seq!['/'] + d, '/');
    crate::text::lemma_parse_decimal_roundtrip(p);
    assert(d.len() <= 20) by {
        if p < 0 {
            assert(d =~= seq!['-'] + nat_decimal(m));
        }
        lemma_decimal_len(m);
    }
    lemma_encode_utf8_len(d);
    let len: usize = encode_utf8(d).len() as usize;
    assert(!(!len < 5)) by (bit_vector)
        requires
            len <= 80,
    ;
}

} // verus!
