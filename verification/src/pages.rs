//! The home page, the invitation-key box and where requests are sent back
//! to.

use vstd::prelude::*;
use crate::login::User;
use crate::models::{ActiveSession, InviteKey};
use crate::session::{GtkBoxOptions, gtk_ports_known, opt_sessions, spec_find_status};
use crate::text::str_eq;

verus! {

/// The options part of a box on the home page.
pub enum OptionBoxes {
    /// The Broadway session controls.
    GtkSession(GtkBoxOptions),
    /// The invitation-key controls, with the key or message to show.
    AdminInvite(String),
}

/// A box on the home page.
pub struct HomeBox {
    pub headline: String,
    pub description: String,
    pub bg_color: String,
    pub start_request_to: Option<String>,
    pub option_box: String,
    pub options: OptionBoxes,
}

/// The home page of a logged-in user.
pub struct HomePage {
    pub username: String,
    pub role: String,
    pub admin_settings: bool,
    pub boxes: Vec<HomeBox>,
}

/// The Broadway box: its texts, where a start request goes, and the session
/// box for the sessions found (`spec_find_status`).
pub open spec fn is_broadway_box(b: HomeBox, sessions: Option<Seq<ActiveSession>>) -> bool {
    &&& b.headline@ == "Broadway"@
    &&& b.description@ == "Use Broadway sessions to work with Desktop GTK 3/4 applications from your browser"@
    &&& b.bg_color@ == "#a6d189"@
    &&& b.start_request_to matches Some(t) && t@ == "/api/start/gtk"@
    &&& b.option_box@ == "partials/broadwayBoxOptions"@
    &&& b.options matches OptionBoxes::GtkSession(o) && o@ == spec_find_status(sessions)
}

/// The administrators' invitation-key box, with nothing shown in it yet.
pub open spec fn is_invite_box(b: HomeBox) -> bool {
    &&& b.headline@ == "Admin: Invite Keys"@
    &&& b.description@ == "Create Invite keys"@
    &&& b.bg_color@ == "#ea999c"@
    &&& b.start_request_to is None
    &&& b.option_box@ == "partials/adminBoxOptions"@
    &&& b.options matches OptionBoxes::AdminInvite(k) && k@.len() == 0
}

/// The home page of `user` with the GTK sessions found: the Broadway box
/// for everyone, and for administrators the invitation-key box after it.
pub fn index(user: User, active_sessions: Option<Vec<ActiveSession>>) -> (page: HomePage)
    requires
        active_sessions matches Some(v) ==> gtk_ports_known(v@),
    ensures
        page.username == user.username,
        page.role == user.role,
        page.admin_settings == (user.role@ == "admin"@),
        page.boxes@.len() == if page.admin_settings {
            2int
        } else {
            1int
        },
        is_broadway_box(page.boxes@[0], opt_sessions(active_sessions)),
        page.admin_settings ==> is_invite_box(page.boxes@[1]),
{
    let admin = str_eq(user.role.as_str(), "admin");
    let ghost sessions = opt_sessions(active_sessions);
    let mut boxes: Vec<HomeBox> = Vec::new();
    boxes.push(
        HomeBox {
            headline: String::from_str("Broadway"),
            description: String::from_str(
                "Use Broadway sessions to work with Desktop GTK 3/4 applications from your browser",
            ),
            bg_color: String::from_str("#a6d189"),
            start_request_to: Some(String::from_str("/api/start/gtk")),
            option_box: String::from_str("partials/broadwayBoxOptions"),
            options: OptionBoxes::GtkSession(GtkBoxOptions::find_status(active_sessions)),
        },
    );
    if admin {
        let empty = String::new();
        boxes.push(
            HomeBox {
                headline: String::from_str("Admin: Invite Keys"),
                description: String::from_str("Create Invite keys"),
                bg_color: String::from_str("#ea999c"),
                option_box: String::from_str("partials/adminBoxOptions"),
                start_request_to: None,
                options: OptionBoxes::AdminInvite(empty),
            },
        );
    }
    HomePage { username: user.username, role: user.role, admin_settings: admin, boxes }
}

/// The invitation-key box after creating a key: the new key, or the
/// message "Could not Create key ".
pub fn create_invite_key(created: Option<InviteKey>) -> (o: OptionBoxes)
    ensures
        match created {
            Some(k) => o == OptionBoxes::AdminInvite(k.inv_key),
            None => o matches OptionBoxes::AdminInvite(m) && m@ == "Could not Create key "@,
        },
{
    match created {
        Some(k) => OptionBoxes::AdminInvite(k.inv_key),
        None => OptionBoxes::AdminInvite(String::from_str("Could not Create key ")),
    }
}

/// The invitation-key box after deleting all keys: "All keys deleted", or
/// "Could not delete keys".
pub fn delete_invite_key(deleted: bool) -> (o: OptionBoxes)
    ensures
        deleted ==> (o matches OptionBoxes::AdminInvite(m) && m@ == "All keys deleted"@),
        !deleted ==> (o matches OptionBoxes::AdminInvite(m) && m@ == "Could not delete keys"@),
{
    if deleted {
        OptionBoxes::AdminInvite(String::from_str("All keys deleted"))
    } else {
        OptionBoxes::AdminInvite(String::from_str("Could not delete keys"))
    }
}

/// The answer body of the invitation-key endpoints.
pub struct InviteKeyResponse {
    pub status: i32,
    pub key: Option<String>,
}

/// Where a request to the home page without a logged-in user is sent: the
/// login page.
pub fn login_redirect() -> (to: &'static str)
    ensures
        to@ == "/login"@,
{
    "/login"
}

/// Where an unauthorized request is sent: the login page.
pub fn unauth() -> (to: &'static str)
    ensures
        to@ == "/login"@,
{
    "/login"
}

/// Where a request for an unknown page is sent: the home page.
pub fn not_found() -> (to: &'static str)
    ensures
        to@ == "/"@,
{
    "/"
}

} // verus!
