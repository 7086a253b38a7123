//! Broadway sessions of a user: what the session box on the home page
//! shows, and the decisions of starting and ending a session.

use vstd::prelude::*;
use crate::models::{ActiveSession, opt_view, copy_opt_string};
use crate::text::{int_decimal, i32_to_decimal, str_eq};
use crate::filemanager::{is_mountable_home_name, mountable_home_name_ok};

verus! {

/// The service id of GTK 3 Broadway sessions.
pub const GTK3_SERVICE_ID: i32 = 2;

/// The service id of GTK 4 Broadway sessions.
pub const GTK4_SERVICE_ID: i32 = 1;

/// The address shown when a session has no container address.
pub const SELF_IP: &'static str = "127.0.0.1";

/// `s.push(e)` filtered is the filtered `s`, with `e` after it if it passes.
pub proof fn lemma_filter_push<A>(s: Seq<A>, pred: spec_fn(A) -> bool, e: A)
    ensures
        pred(e) ==> s.push(e).filter(pred) == s.filter(pred).push(e),
        !pred(e) ==> s.push(e).filter(pred) == s.filter(pred),
{
    reveal(Seq::filter);
    assert(s.push(e).drop_last() =~= s);
}

/// The ports and address of a user's Broadway sessions.
pub struct PortMap {
    pub gtk3: i32,
    pub gtk4: i32,
    pub ip: String,
}

/// A session of a GTK service.
pub open spec fn is_gtk_session(s: ActiveSession) -> bool {
    s.service_id == GTK3_SERVICE_ID || s.service_id == GTK4_SERVICE_ID
}

/// Every GTK session of the list has a port.
pub open spec fn gtk_ports_known(sessions: Seq<ActiveSession>) -> bool {
    forall|i: int| 0 <= i < sessions.len() && is_gtk_session(#[trigger] sessions[i]) ==> sessions[i].port is Some
}

/// The address of a session: its container's, else `SELF_IP`.
pub open spec fn session_ip(s: ActiveSession) -> Seq<char> {
    match s.container_ip {
        Some(ip) => ip@,
        None => SELF_IP@,
    }
}

/// The GTK 3 port, GTK 4 port and address read off `sessions` in order:
/// each GTK session sets the port of its service and the address, so the
/// last one of each service wins; ports start at 0 and the address at
/// `SELF_IP`.
pub open spec fn gtk_ports(sessions: Seq<ActiveSession>) -> (int, int, Seq<char>)
    decreases sessions.len(),
{
    if sessions.len() == 0 {
        (0, 0, SELF_IP@)
    } else {
        let prev = gtk_ports(sessions.drop_last());
        let s = sessions.last();
        if s.service_id == GTK3_SERVICE_ID {
            (s.port->0 as int, prev.1, session_ip(s))
        } else if s.service_id == GTK4_SERVICE_ID {
            (prev.0, s.port->0 as int, session_ip(s))
        } else {
            prev
        }
    }
}

/// Reads the ports and address of the GTK sessions (see `gtk_ports`).
pub fn find_gtk_ports(active_sessions: &Vec<ActiveSession>) -> (m: PortMap)
    requires
        gtk_ports_known(active_sessions@),
    ensures
        (m.gtk3 as int, m.gtk4 as int, m.ip@) == gtk_ports(active_sessions@),
{
    let mut gtk3: i32 = 0;
    let mut gtk4: i32 = 0;
    let mut ip = String::from_str(SELF_IP);
    let mut i: usize = 0;
    assert(active_sessions@.take(0) =~= Seq::<ActiveSession>::empty());
    while i < active_sessions.len()
        invariant
            i <= active_sessions.len(),
            gtk_ports_known(active_sessions@),
            (gtk3 as int, gtk4 as int, ip@) == gtk_ports(active_sessions@.take(i as int)),
        decreases active_sessions.len() - i,
    {
        let s = &active_sessions[i];
        assert(active_sessions@.take(i + 1).drop_last() =~= active_sessions@.take(i as int));
        assert(active_sessions@.take(i + 1).last() == *s);
        if s.service_id == GTK3_SERVICE_ID {
            gtk3 = s.port.unwrap();
            ip = match &s.container_ip {
                Some(c) => c.clone(),
                None => String::from_str(SELF_IP),
            };
        }
        if s.service_id == GTK4_SERVICE_ID {
            gtk4 = s.port.unwrap();
            ip = match &s.container_ip {
                Some(c) => c.clone(),
                None => String::from_str(SELF_IP),
            };
        }
        i = i + 1;
    }
    assert(active_sessions@.take(active_sessions.len() as int) =~= active_sessions@);
    PortMap { gtk3, gtk4, ip }
}

/// What the Broadway box on the home page shows.
pub struct GtkBoxOptions {
    pub session_exists: bool,
    pub status_msg: String,
    pub gtk3_port: Option<i32>,
    pub gtk4_port: Option<i32>,
    pub container_ip: Option<String>,
}

/// The contents of a `GtkBoxOptions`.
pub ghost struct GtkBoxOptionsView {
    pub session_exists: bool,
    pub status_msg: Seq<char>,
    pub gtk3_port: Option<i32>,
    pub gtk4_port: Option<i32>,
    pub container_ip: Option<Seq<char>>,
}

impl View for GtkBoxOptions {
    type V = GtkBoxOptionsView;

    open spec fn view(&self) -> GtkBoxOptionsView {
        GtkBoxOptionsView {
            session_exists: self.session_exists,
            status_msg: self.status_msg@,
            gtk3_port: self.gtk3_port,
            gtk4_port: self.gtk4_port,
            container_ip: opt_view(self.container_ip),
        }
    }
}

/// A box that only shows a message: no session, no ports, no address.
pub open spec fn spec_just_status(msg: Seq<char>) -> GtkBoxOptionsView {
    GtkBoxOptionsView {
        session_exists: false,
        status_msg: msg,
        gtk3_port: None,
        gtk4_port: None,
        container_ip: None,
    }
}

/// What the box shows for the active sessions found, if any: with sessions,
/// their ports and address (see `gtk_ports`); without, a message saying so.
pub open spec fn spec_find_status(sessions: Option<Seq<ActiveSession>>) -> GtkBoxOptionsView {
    match sessions {
        Some(v) => {
            let p = gtk_ports(v);
            GtkBoxOptionsView {
                session_exists: true,
                status_msg: "Active session found"@,
                gtk3_port: Some(p.0 as i32),
                gtk4_port: Some(p.1 as i32),
                container_ip: Some(p.2),
            }
        },
        None => spec_just_status("No active sessions"@),
    }
}

/// Whether every GTK session of the list has a port (`gtk_ports_known`).
pub fn ports_known(sessions: &Vec<ActiveSession>) -> (r: bool)
    ensures
        r == gtk_ports_known(sessions@),
{
    let mut i: usize = 0;
    while i < sessions.len()
        invariant
            i <= sessions.len(),
            forall|j: int| 0 <= j < i && is_gtk_session(#[trigger] sessions@[j]) ==> sessions@[j].port is Some,
        decreases sessions.len() - i,
    {
        let s = &sessions[i];
        if (s.service_id == GTK3_SERVICE_ID || s.service_id == GTK4_SERVICE_ID) && s.port.is_none() {
            assert(is_gtk_session(sessions@[i as int]));
            return false;
        }
        i = i + 1;
    }
    true
}

/// The sessions of an optional list, viewed as a sequence.
pub open spec fn opt_sessions(sessions: Option<Vec<ActiveSession>>) -> Option<Seq<ActiveSession>> {
    match sessions {
        Some(v) => Some(v@),
        None => None,
    }
}

impl GtkBoxOptions {
    /// The box for the sessions found (see `spec_find_status`).
    pub fn find_status(active_sessions: Option<Vec<ActiveSession>>) -> (o: GtkBoxOptions)
        requires
            active_sessions matches Some(v) ==> gtk_ports_known(v@),
        ensures
            o@ == spec_find_status(opt_sessions(active_sessions)),
    {
        match active_sessions {
            Some(sessions) => {
                let gtk_ports = find_gtk_ports(&sessions);
                GtkBoxOptions {
                    session_exists: true,
                    status_msg: String::from_str("Active session found"),
                    gtk3_port: Some(gtk_ports.gtk3),
                    gtk4_port: Some(gtk_ports.gtk4),
                    container_ip: Some(gtk_ports.ip),
                }
            },
            None => GtkBoxOptions {
                session_exists: false,
                status_msg: String::from_str("No active sessions"),
                gtk3_port: None,
                gtk4_port: None,
                container_ip: None,
            },
        }
    }

    /// A box that only shows `msg`.
    pub fn just_status(msg: &str) -> (o: GtkBoxOptions)
        ensures
            o@ == spec_just_status(msg@),
    {
        GtkBoxOptions {
            session_exists: false,
            status_msg: String::from_str(msg),
            gtk3_port: None,
            gtk4_port: None,
            container_ip: None,
        }
    }
}

/// A session passes the service filter when there is no filter or the
/// filter names its service.
pub open spec fn passes_filter(s: ActiveSession, filter: Option<Seq<i32>>) -> bool {
    match filter {
        None => true,
        Some(f) => f.contains(s.service_id),
    }
}

/// The filter as a sequence.
pub open spec fn opt_filter(filter: Option<&Vec<i32>>) -> Option<Seq<i32>> {
    match filter {
        Some(f) => Some(f@),
        None => None,
    }
}

fn filter_contains(f: &Vec<i32>, id: i32) -> (r: bool)
    ensures
        r == f@.contains(id),
{
    let mut i: usize = 0;
    while i < f.len()
        invariant
            i <= f.len(),
            forall|j: int| 0 <= j < i ==> f@[j] != id,
        decreases f.len() - i,
    {
        if f[i] == id {
            assert(f@[i as int] == id);
            return true;
        }
        i = i + 1;
    }
    false
}

/// The active sessions of a user that pass the service filter, in their
/// order; `None` when the lookup failed (`sessions` is `None`) or no session
/// passes.
pub fn status(sessions: Option<Vec<ActiveSession>>, filter: Option<&Vec<i32>>) -> (res: Option<Vec<ActiveSession>>)
    ensures
        match sessions {
            None => res is None,
            Some(v) => {
                let kept = v@.filter(|s: ActiveSession| passes_filter(s, opt_filter(filter)));
                if kept.len() > 0 {
                    res matches Some(r) && r@ == kept
                } else {
                    res is None
                }
            },
        },
{
    let v = match sessions {
        Some(v) => v,
        None => return None,
    };
    let ghost pred = |s: ActiveSession| passes_filter(s, opt_filter(filter));
    let mut kept: Vec<ActiveSession> = Vec::new();
    let mut i: usize = 0;
    proof {
        reveal(Seq::filter);
        assert(v@.take(0) =~= Seq::<ActiveSession>::empty());
    }
    while i < v.len()
        invariant
            i <= v.len(),
            kept@ == v@.take(i as int).filter(pred),
            pred == (|s: ActiveSession| passes_filter(s, opt_filter(filter))),
        decreases v.len() - i,
    {
        let s = &v[i];
        let pass = match filter {
            None => true,
            Some(f) => filter_contains(f, s.service_id),
        };
        proof {
            lemma_filter_push(v@.take(i as int), pred, *s);
            assert(v@.take(i + 1) =~= v@.take(i as int).push(*s));
        }
        if pass {
            kept.push(s.duplicate());
        }
        i = i + 1;
    }
    assert(v@.take(v.len() as int) =~= v@);
    if kept.len() > 0 {
        Some(kept)
    } else {
        None
    }
}


/// Where session containers come from and how they are reached.
pub struct DockerSettings {
    pub shared_volume: String,
    pub vroot_image: String,
    pub common_network: Option<String>,
}

impl DockerSettings {
    /// Settings from the configured values; an empty network name means that
    /// containers share no network with the service.
    pub fn new(shared_volume: String, vroot_image: String, common_network: Option<String>) -> (d: DockerSettings)
        ensures
            d.shared_volume == shared_volume,
            d.vroot_image == vroot_image,
            match common_network {
                Some(n) => if n@.len() == 0 {
                    d.common_network is None
                } else {
                    d.common_network == Some(n)
                },
                None => d.common_network is None,
            },
    {
        let network = match common_network {
            Some(n) => if n.as_str().is_empty() {
                None
            } else {
                Some(n)
            },
            None => None,
        };
        DockerSettings { shared_volume, vroot_image, common_network: network }
    }
}

/// The container that a session runs in.
pub struct ContainerPlan {
    pub image: String,
    pub name: String,
    pub env: Vec<String>,
    pub volumes: Vec<String>,
    /// The network to attach the container to, if any.
    pub network: Option<String>,
    /// Ports published on the host under the same number (when there is no
    /// shared network).
    pub exposed_ports: Vec<u32>,
}

/// The contents of a `ContainerPlan`.
pub ghost struct ContainerPlanView {
    pub image: Seq<char>,
    pub name: Seq<char>,
    pub env: Seq<Seq<char>>,
    pub volumes: Seq<Seq<char>>,
    pub network: Option<Seq<char>>,
    pub exposed_ports: Seq<u32>,
}

impl View for ContainerPlan {
    type V = ContainerPlanView;

    open spec fn view(&self) -> ContainerPlanView {
        ContainerPlanView {
            image: self.image@,
            name: self.name@,
            env: self.env@.map_values(|e: String| e@),
            volumes: self.volumes@.map_values(|v: String| v@),
            network: opt_view(self.network),
            exposed_ports: self.exposed_ports@,
        }
    }
}

/// The port of a registered session, 0 when it has none.
pub open spec fn port_or_zero(s: ActiveSession) -> int {
    match s.port {
        Some(p) => p as int,
        None => 0,
    }
}

/// The container for a GTK 3 and a GTK 4 session of a user: named after
/// both ports, told both ports in its environment, with the user's own home
/// (the directory named after the user under the shared volume) mounted,
/// and either attached to the common network or publishing both ports.
pub open spec fn spec_container_plan(settings: DockerSettings, gtk3: ActiveSession, gtk4: ActiveSession) -> ContainerPlanView {
    let p3 = port_or_zero(gtk3);
    let p4 = port_or_zero(gtk4);
    ContainerPlanView {
        image: settings.vroot_image@,
        name: "vroot-"@ + int_decimal(p3) + "-"@ + int_decimal(p4),
        env: seq!["BROADWAY_3_PORT="@ + int_decimal(p3), "BROADWAY_4_PORT="@ + int_decimal(p4)],
        volumes: seq![settings.shared_volume@ + "/"@ + gtk3.user@ + ":/home/gtk-user"@],
        network: opt_view(settings.common_network),
        exposed_ports: if settings.common_network is None {
            seq![p3 as u32, p4 as u32]
        } else {
            Seq::empty()
        },
    }
}

fn concat_str(a: &str, b: &str) -> (s: String)
    ensures
        s@ == a@ + b@,
{
    let mut s = String::from_str(a);
    s.append(b);
    s
}

/// The container plan (see `spec_container_plan`).
pub fn container_plan(settings: &DockerSettings, gtk3: &ActiveSession, gtk4: &ActiveSession) -> (plan: ContainerPlan)
    ensures
        plan@ == spec_container_plan(*settings, *gtk3, *gtk4),
{
    let p3: i32 = match gtk3.port {
        Some(p) => p,
        None => 0,
    };
    let p4: i32 = match gtk4.port {
        Some(p) => p,
        None => 0,
    };
    let d3 = i32_to_decimal(p3);
    let d4 = i32_to_decimal(p4);
    let mut name = concat_str("vroot-", d3.as_str());
    name.append("-");
    name.append(d4.as_str());
    let mut env: Vec<String> = Vec::new();
    env.push(concat_str("BROADWAY_3_PORT=", d3.as_str()));
    env.push(concat_str("BROADWAY_4_PORT=", d4.as_str()));
    let mut volumes: Vec<String> = Vec::new();
    let mut volume = concat_str(settings.shared_volume.as_str(), "/");
    volume.append(gtk3.user.as_str());
    volume.append(":/home/gtk-user");
    volumes.push(volume);
    let mut exposed: Vec<u32> = Vec::new();
    if settings.common_network.is_none() {
        exposed.push(p3 as u32);
        exposed.push(p4 as u32);
    }
    let plan = ContainerPlan {
        image: settings.vroot_image.clone(),
        name,
        env,
        volumes,
        network: copy_opt_string(&settings.common_network),
        exposed_ports: exposed,
    };
    let ghost spec_plan = spec_container_plan(*settings, *gtk3, *gtk4);
    assert(plan@.name =~= spec_plan.name);
    assert(plan@.env =~= spec_plan.env);
    assert(plan@.volumes =~= spec_plan.volumes);
    assert(plan@.exposed_ports =~= spec_plan.exposed_ports);
    plan
}


/// A network that an inspected container is attached to, and its address
/// there.
pub struct NetworkEndpoint {
    pub name: String,
    pub ip_address: Option<String>,
}

/// The address that the common network gave the container: that of the
/// first endpoint named `network`, if it has one.
pub open spec fn endpoint_ip(endpoints: Seq<NetworkEndpoint>, network: Seq<char>) -> Option<Seq<char>>
    decreases endpoints.len(),
{
    if endpoints.len() == 0 {
        None
    } else if endpoints[0].name@ == network {
        opt_view(endpoints[0].ip_address)
    } else {
        endpoint_ip(endpoints.drop_first(), network)
    }
}

/// The address a new session is reached at: what inspecting its container
/// shows for the common network, else `127.0.0.1` (also when the container
/// could not be inspected).
pub open spec fn spec_container_ip(network: Option<String>, inspected: Option<Seq<NetworkEndpoint>>) -> Seq<char> {
    match inspected {
        Some(eps) => match endpoint_ip(eps, network->0@) {
            Some(ip) => ip,
            None => "127.0.0.1"@,
        },
        None => "127.0.0.1"@,
    }
}

fn find_endpoint_ip(endpoints: &Vec<NetworkEndpoint>, network: &str) -> (r: Option<String>)
    ensures
        opt_view(r) == endpoint_ip(endpoints@, network@),
{
    let mut i: usize = 0;
    assert(endpoints@.skip(0) =~= endpoints@);
    while i < endpoints.len()
        invariant
            i <= endpoints.len(),
            endpoint_ip(endpoints@, network@) == endpoint_ip(endpoints@.skip(i as int), network@),
        decreases endpoints.len() - i,
    {
        let e = &endpoints[i];
        assert(endpoints@.skip(i as int)[0] == *e);
        assert(endpoints@.skip(i as int).drop_first() =~= endpoints@.skip(i + 1));
        if str_eq(e.name.as_str(), network) {
            return copy_opt_string(&e.ip_address);
        }
        i = i + 1;
    }
    assert(endpoints@.skip(i as int).len() == 0);
    None
}

/// Where a session start stands.
pub enum StartState {
    /// Waiting for the user's existing GTK sessions (the result of `status`).
    CheckingExisting,
    /// Waiting for the registration of a GTK 3 and a GTK 4 session.
    Registering,
    /// Waiting for the container to be created.
    Creating { gtk3: ActiveSession, gtk4: ActiveSession },
    /// Waiting for the container to start.
    Starting { gtk3: ActiveSession, gtk4: ActiveSession },
    /// Waiting for the container's network settings.
    Inspecting { gtk3: ActiveSession, gtk4: ActiveSession, start_failed: bool },
    /// Waiting for the container id and address to be stored with both sessions.
    StoringIds { gtk3: ActiveSession, gtk4: ActiveSession, container_ip: String, start_failed: bool },
    /// Waiting for both registrations to be removed again.
    RollingBack,
    /// The answer has been given.
    Finished,
}

/// What happened in answer to the last action.
pub enum StartEvent {
    /// The user's existing GTK sessions, as `status` gives them.
    ExistingSessions(Option<Vec<ActiveSession>>),
    /// The GTK 3 and GTK 4 registrations, `None` for one that failed.
    Registered(Option<ActiveSession>, Option<ActiveSession>),
    /// Whether the container was created.
    ContainerCreated(bool),
    /// Whether the container started.
    ContainerStarted(bool),
    /// The container's networks, `None` when it could not be inspected.
    ContainerInspected(Option<Vec<NetworkEndpoint>>),
    /// Whether the container id was stored with both sessions.
    DockerIdsStored(bool),
    /// Both registrations were removed.
    SessionsRemoved,
}

/// What to do next.
pub enum StartAction {
    /// Register a GTK 3 and a GTK 4 session, each with a port.
    RegisterSessions,
    /// Create this container.
    CreateContainer(ContainerPlan),
    /// Start the created container.
    StartContainer,
    /// Inspect the container's network settings.
    InspectContainer,
    /// Store the container's id and this address with both sessions.
    StoreDockerIds { gtk3_id: i32, gtk4_id: i32, container_ip: String },
    /// Remove the GTK 3 and GTK 4 registrations of the user.
    RemoveSessions,
    /// Answer "accepted" with this box.
    Accept(GtkBoxOptions),
    /// Answer "conflict" with this box.
    Reject(GtkBoxOptions),
    /// The sessions cannot be kept consistent with the container: give up.
    Abort,
}

/// The event that the action taken in `state` answers with.
pub open spec fn start_event_fits(state: StartState, event: StartEvent) -> bool {
    match state {
        StartState::CheckingExisting => event is ExistingSessions,
        StartState::Registering => event is Registered,
        StartState::Creating { .. } => event is ContainerCreated,
        StartState::Starting { .. } => event is ContainerStarted,
        StartState::Inspecting { .. } => event is ContainerInspected,
        StartState::StoringIds { .. } => event is DockerIdsStored,
        StartState::RollingBack => event is SessionsRemoved,
        StartState::Finished => false,
    }
}

/// The inputs on which a start step would fail: existing sessions without
/// ports, or an inspected container when no common network is configured.
pub open spec fn start_step_defined(settings: DockerSettings, event: StartEvent) -> bool {
    &&& event matches StartEvent::ExistingSessions(Some(v)) ==> gtk_ports_known(v@)
    &&& (event matches StartEvent::ContainerInspected(Some(_))) ==> settings.common_network is Some
}

/// Whether a start step can be taken on `event` (`start_step_defined`).
pub fn start_step_possible(settings: &DockerSettings, event: &StartEvent) -> (r: bool)
    ensures
        r == start_step_defined(*settings, *event),
{
    match event {
        StartEvent::ExistingSessions(Some(v)) => ports_known(v),
        StartEvent::ContainerInspected(Some(_)) => settings.common_network.is_some(),
        _ => true,
    }
}

/// The next state and action of a session start (see the clauses of
/// `start_step` for each transition).
pub ghost enum StartActionView {
    RegisterSessions,
    CreateContainer(ContainerPlanView),
    StartContainer,
    InspectContainer,
    StoreDockerIds { gtk3_id: i32, gtk4_id: i32, container_ip: Seq<char> },
    RemoveSessions,
    Accept(GtkBoxOptionsView),
    Reject(GtkBoxOptionsView),
    Abort,
}

impl View for StartAction {
    type V = StartActionView;

    open spec fn view(&self) -> StartActionView {
        match self {
            StartAction::RegisterSessions => StartActionView::RegisterSessions,
            StartAction::CreateContainer(p) => StartActionView::CreateContainer(p@),
            StartAction::StartContainer => StartActionView::StartContainer,
            StartAction::InspectContainer => StartActionView::InspectContainer,
            StartAction::StoreDockerIds { gtk3_id, gtk4_id, container_ip } => StartActionView::StoreDockerIds {
                gtk3_id: *gtk3_id,
                gtk4_id: *gtk4_id,
                container_ip: container_ip@,
            },
            StartAction::RemoveSessions => StartActionView::RemoveSessions,
            StartAction::Accept(o) => StartActionView::Accept(o@),
            StartAction::Reject(o) => StartActionView::Reject(o@),
            StartAction::Abort => StartActionView::Abort,
        }
    }
}

/// The state after a step, with the address of `StoringIds` taken by view.
pub ghost enum StartStateView {
    CheckingExisting,
    Registering,
    Creating { gtk3: ActiveSession, gtk4: ActiveSession },
    Starting { gtk3: ActiveSession, gtk4: ActiveSession },
    Inspecting { gtk3: ActiveSession, gtk4: ActiveSession, start_failed: bool },
    StoringIds { gtk3: ActiveSession, gtk4: ActiveSession, container_ip: Seq<char>, start_failed: bool },
    RollingBack,
    Finished,
}

impl View for StartState {
    type V = StartStateView;

    open spec fn view(&self) -> StartStateView {
        match self {
            StartState::CheckingExisting => StartStateView::CheckingExisting,
            StartState::Registering => StartStateView::Registering,
            StartState::Creating { gtk3, gtk4 } => StartStateView::Creating { gtk3: *gtk3, gtk4: *gtk4 },
            StartState::Starting { gtk3, gtk4 } => StartStateView::Starting { gtk3: *gtk3, gtk4: *gtk4 },
            StartState::Inspecting { gtk3, gtk4, start_failed } => StartStateView::Inspecting {
                gtk3: *gtk3,
                gtk4: *gtk4,
                start_failed: *start_failed,
            },
            StartState::StoringIds { gtk3, gtk4, container_ip, start_failed } => StartStateView::StoringIds {
                gtk3: *gtk3,
                gtk4: *gtk4,
                container_ip: container_ip@,
                start_failed: *start_failed,
            },
            StartState::RollingBack => StartStateView::RollingBack,
            StartState::Finished => StartStateView::Finished,
        }
    }
}

/// The message of a started session: "Session created ", followed by
/// "; Failed to start container" when the container did not start.
pub open spec fn created_message(start_failed: bool) -> Seq<char> {
    "Session created "@ + if start_failed {
        "; Failed to start container"@
    } else {
        Seq::<char>::empty()
    }
}

/// One step of starting a session.
///  - Existing GTK sessions: answer "accepted", showing them with the
///    message "Session already exists"; none: register two sessions.
///  - Both registered: create the container of `spec_container_plan`, or,
///    when the user's home cannot be mounted (`is_mountable_home_name`:
///    the name is empty, "." or "..", or holds '/' or ':'), remove both
///    registrations and answer as for a failed creation; a
///    registration failed: answer "conflict" ("Faild to register session").
///  - Container created: start it; not created: remove both registrations,
///    then answer "conflict" ("Failed to create container").
///  - Started or not: inspect it (remembering whether the start failed).
///  - Inspected: store the container with both sessions, together with the
///    address of `spec_container_ip`.
///  - Stored: answer "accepted" with both ports and the address
///    (`created_message`); not stored: give up.
pub fn start_step(settings: &DockerSettings, state: StartState, event: StartEvent) -> (res: (StartState, StartAction))
    requires
        start_event_fits(state, event),
        start_step_defined(*settings, event),
    ensures
        match (state, event) {
            (StartState::CheckingExisting, StartEvent::ExistingSessions(Some(v))) => {
                res.0@ == StartStateView::Finished && res.1@ == StartActionView::Accept(
                    GtkBoxOptionsView {
                        status_msg: "Session already exists"@,
                        ..spec_find_status(Some(v@))
                    },
                )
            },
            (StartState::CheckingExisting, StartEvent::ExistingSessions(None)) => {
                res.0@ == StartStateView::Registering && res.1@ == StartActionView::RegisterSessions
            },
            (StartState::Registering, StartEvent::Registered(Some(a), Some(b))) => {
                if is_mountable_home_name(a.user@) {
                    res.0@ == (StartStateView::Creating { gtk3: a, gtk4: b }) && res.1@
                        == StartActionView::CreateContainer(spec_container_plan(*settings, a, b))
                } else {
                    res.0@ == StartStateView::RollingBack && res.1@ == StartActionView::RemoveSessions
                }
            },
            (StartState::Registering, StartEvent::Registered(_, _)) => {
                res.0@ == StartStateView::Finished && res.1@ == StartActionView::Reject(
                    spec_just_status("Faild to register session"@),
                )
            },
            (StartState::Creating { gtk3, gtk4 }, StartEvent::ContainerCreated(created)) => {
                if created {
                    res.0@ == (StartStateView::Starting { gtk3, gtk4 }) && res.1@
                        == StartActionView::StartContainer
                } else {
                    res.0@ == StartStateView::RollingBack && res.1@ == StartActionView::RemoveSessions
                }
            },
            (StartState::Starting { gtk3, gtk4 }, StartEvent::ContainerStarted(started)) => {
                res.0@ == (StartStateView::Inspecting { gtk3, gtk4, start_failed: !started })
                    && res.1@ == StartActionView::InspectContainer
            },
            (
                StartState::Inspecting { gtk3, gtk4, start_failed },
                StartEvent::ContainerInspected(inspected),
            ) => {
                let ip = spec_container_ip(
                    settings.common_network,
                    match inspected {
                        Some(v) => Some(v@),
                        None => None,
                    },
                );
                res.0@ == (StartStateView::StoringIds { gtk3, gtk4, container_ip: ip, start_failed })
                    && res.1@ == (StartActionView::StoreDockerIds {
                    gtk3_id: gtk3.id,
                    gtk4_id: gtk4.id,
                    container_ip: ip,
                })
            },
            (
                StartState::StoringIds { gtk3, gtk4, container_ip, start_failed },
                StartEvent::DockerIdsStored(stored),
            ) => {
                if stored {
                    res.0@ == StartStateView::Finished && res.1@ == StartActionView::Accept(
                        GtkBoxOptionsView {
                            session_exists: true,
                            status_msg: created_message(start_failed),
                            gtk3_port: gtk3.port,
                            gtk4_port: gtk4.port,
                            container_ip: Some(container_ip@),
                        },
                    )
                } else {
                    res.0@ == StartStateView::Finished && res.1@ == StartActionView::Abort
                }
            },
            (StartState::RollingBack, StartEvent::SessionsRemoved) => {
                res.0@ == StartStateView::Finished && res.1@ == StartActionView::Reject(
                    spec_just_status("Failed to create container"@),
                )
            },
            _ => false,
        },
{
    match state {
        StartState::CheckingExisting => {
            match event {
                StartEvent::ExistingSessions(Some(existing)) => {
                    let mut msg = GtkBoxOptions::find_status(Some(existing));
                    msg.status_msg = String::from_str("Session already exists");
                    (StartState::Finished, StartAction::Accept(msg))
                },
                _ => (StartState::Registering, StartAction::RegisterSessions),
            }
        },
        StartState::Registering => {
            match event {
                StartEvent::Registered(Some(gtk3), Some(gtk4)) => {
                    if !mountable_home_name_ok(gtk3.user.as_str()) {
                        return (StartState::RollingBack, StartAction::RemoveSessions);
                    }
                    let plan = container_plan(settings, &gtk3, &gtk4);
                    (StartState::Creating { gtk3, gtk4 }, StartAction::CreateContainer(plan))
                },
                _ => (
                    StartState::Finished,
                    StartAction::Reject(GtkBoxOptions::just_status("Faild to register session")),
                ),
            }
        },
        StartState::Creating { gtk3, gtk4 } => {
            match event {
                StartEvent::ContainerCreated(true) => (
                    StartState::Starting { gtk3, gtk4 },
                    StartAction::StartContainer,
                ),
                _ => (StartState::RollingBack, StartAction::RemoveSessions),
            }
        },
        StartState::Starting { gtk3, gtk4 } => {
            let started = match event {
                StartEvent::ContainerStarted(ok) => ok,
                _ => false,
            };
            (
                StartState::Inspecting { gtk3, gtk4, start_failed: !started },
                StartAction::InspectContainer,
            )
        },
        StartState::Inspecting { gtk3, gtk4, start_failed } => {
            let found = match event {
                StartEvent::ContainerInspected(Some(endpoints)) => {
                    let network = match &settings.common_network {
                        Some(n) => n.as_str(),
                        None => "",
                    };
                    find_endpoint_ip(&endpoints, network)
                },
                _ => None,
            };
            let ip = match found {
                Some(ip) => ip,
                None => String::from_str("127.0.0.1"),
            };
            let action = StartAction::StoreDockerIds {
                gtk3_id: gtk3.id,
                gtk4_id: gtk4.id,
                container_ip: ip.clone(),
            };
            (StartState::StoringIds { gtk3, gtk4, container_ip: ip, start_failed }, action)
        },
        StartState::StoringIds { gtk3, gtk4, container_ip, start_failed } => {
            match event {
                StartEvent::DockerIdsStored(true) => {
                    let mut msg = String::from_str("Session created ");
                    if start_failed {
                        msg.append("; Failed to start container");
                    }
                    let opts = GtkBoxOptions {
                        status_msg: msg,
                        session_exists: true,
                        gtk3_port: gtk3.port,
                        gtk4_port: gtk4.port,
                        container_ip: Some(container_ip),
                    };
                    (StartState::Finished, StartAction::Accept(opts))
                },
                _ => (StartState::Finished, StartAction::Abort),
            }
        },
        StartState::RollingBack => (
            StartState::Finished,
            StartAction::Reject(GtkBoxOptions::just_status("Failed to create container")),
        ),
        StartState::Finished => (StartState::Finished, StartAction::Abort),
    }
}


/// Where ending a session stands.
pub enum EndState {
    /// Waiting for the user's GTK sessions (the result of `status`).
    CheckingSessions,
    /// Waiting for the session's container to be removed.
    RemovingContainer,
    /// Waiting for both registrations to be removed; `errors` is what went
    /// wrong so far.
    RemovingSessions { errors: String },
    /// The answer has been given.
    Finished,
}

/// What happened in answer to the last action.
pub enum EndEvent {
    /// The user's GTK sessions, as `status` gives them.
    ActiveSessions(Option<Vec<ActiveSession>>),
    /// The container was removed (`None`) or not (the error, as debug text).
    ContainerRemoved(Option<String>),
    /// Both registrations were removed.
    SessionsRemoved,
}

/// What to do next.
pub enum EndAction {
    /// Remove, by force and with its volumes, the container of this id.
    RemoveContainer(String),
    /// Remove the GTK 3 and GTK 4 registrations of the user.
    RemoveSessions,
    /// Answer "accepted" with this box.
    Accept(GtkBoxOptions),
    /// Answer "conflict" with this box.
    Reject(GtkBoxOptions),
}

/// The contents of an `EndAction`.
pub ghost enum EndActionView {
    RemoveContainer(Seq<char>),
    RemoveSessions,
    Accept(GtkBoxOptionsView),
    Reject(GtkBoxOptionsView),
}

impl View for EndAction {
    type V = EndActionView;

    open spec fn view(&self) -> EndActionView {
        match self {
            EndAction::RemoveContainer(id) => EndActionView::RemoveContainer(id@),
            EndAction::RemoveSessions => EndActionView::RemoveSessions,
            EndAction::Accept(o) => EndActionView::Accept(o@),
            EndAction::Reject(o) => EndActionView::Reject(o@),
        }
    }
}

/// The contents of an `EndState`.
pub ghost enum EndStateView {
    CheckingSessions,
    RemovingContainer,
    RemovingSessions { errors: Seq<char> },
    Finished,
}

impl View for EndState {
    type V = EndStateView;

    open spec fn view(&self) -> EndStateView {
        match self {
            EndState::CheckingSessions => EndStateView::CheckingSessions,
            EndState::RemovingContainer => EndStateView::RemovingContainer,
            EndState::RemovingSessions { errors } => EndStateView::RemovingSessions { errors: errors@ },
            EndState::Finished => EndStateView::Finished,
        }
    }
}

/// The event that the action taken in `state` answers with; the sessions
/// found are never an empty list (`status` gives `None` then).
pub open spec fn end_event_fits(state: EndState, event: EndEvent) -> bool {
    match state {
        EndState::CheckingSessions => match event {
            EndEvent::ActiveSessions(Some(v)) => v@.len() > 0,
            EndEvent::ActiveSessions(None) => true,
            _ => false,
        },
        EndState::RemovingContainer => event is ContainerRemoved,
        EndState::RemovingSessions { .. } => event is SessionsRemoved,
        EndState::Finished => false,
    }
}

/// Whether `event` fits `state` (`end_event_fits`).
pub fn end_step_possible(state: &EndState, event: &EndEvent) -> (r: bool)
    ensures
        r == end_event_fits(*state, *event),
{
    match state {
        EndState::CheckingSessions => match event {
            EndEvent::ActiveSessions(Some(v)) => v.len() > 0,
            EndEvent::ActiveSessions(None) => true,
            _ => false,
        },
        EndState::RemovingContainer => match event {
            EndEvent::ContainerRemoved(_) => true,
            _ => false,
        },
        EndState::RemovingSessions { .. } => match event {
            EndEvent::SessionsRemoved => true,
            _ => false,
        },
        EndState::Finished => false,
    }
}

/// The message of an ended session: "Stopped and Saved env", or what went
/// wrong.
pub open spec fn ended_message(errors: Seq<char>) -> Seq<char> {
    if errors.len() == 0 {
        "Stopped and Saved env"@
    } else {
        errors
    }
}

/// One step of ending a session.
///  - No sessions found: answer "conflict" ("Could not get active Sessions").
///  - Sessions found: remove the container of the first one, if it has one,
///    else go on to removing the registrations.
///  - Container removed or not: remove both registrations, remembering the
///    error.
///  - Registrations removed: answer "accepted" (`ended_message`).
pub fn end_step(state: EndState, event: EndEvent) -> (res: (EndState, EndAction))
    requires
        end_event_fits(state, event),
    ensures
        match (state, event) {
            (EndState::CheckingSessions, EndEvent::ActiveSessions(None)) => {
                res.0@ == EndStateView::Finished && res.1@ == EndActionView::Reject(
                    spec_just_status("Could not get active Sessions"@),
                )
            },
            (EndState::CheckingSessions, EndEvent::ActiveSessions(Some(v))) => {
                match v@[0].docker_id {
                    Some(id) => res.0@ == EndStateView::RemovingContainer && res.1@
                        == EndActionView::RemoveContainer(id@),
                    None => res.0@ == (EndStateView::RemovingSessions { errors: Seq::empty() })
                        && res.1@ == EndActionView::RemoveSessions,
                }
            },
            (EndState::RemovingContainer, EndEvent::ContainerRemoved(err)) => {
                res.1@ == EndActionView::RemoveSessions && res.0@ == (EndStateView::RemovingSessions {
                    errors: match err {
                        Some(e) => " Docker could not kill container: "@ + e@ + ";"@,
                        None => Seq::empty(),
                    },
                })
            },
            (EndState::RemovingSessions { errors }, EndEvent::SessionsRemoved) => {
                res.0@ == EndStateView::Finished && res.1@ == EndActionView::Accept(
                    spec_just_status(ended_message(errors@)),
                )
            },
            _ => false,
        },
{
    match state {
        EndState::CheckingSessions => {
            match event {
                EndEvent::ActiveSessions(Some(sessions)) => {
                    match &sessions[0].docker_id {
                        Some(id) => (EndState::RemovingContainer, EndAction::RemoveContainer(id.clone())),
                        None => (
                            EndState::RemovingSessions { errors: String::new() },
                            EndAction::RemoveSessions,
                        ),
                    }
                },
                _ => (
                    EndState::Finished,
                    EndAction::Reject(GtkBoxOptions::just_status("Could not get active Sessions")),
                ),
            }
        },
        EndState::RemovingContainer => {
            let errors = match event {
                EndEvent::ContainerRemoved(Some(e)) => {
                    let mut msg = String::from_str(" Docker could not kill container: ");
                    msg.append(e.as_str());
                    msg.append(";");
                    msg
                },
                _ => String::new(),
            };
            (EndState::RemovingSessions { errors }, EndAction::RemoveSessions)
        },
        EndState::RemovingSessions { errors } => {
            let opts = if errors.as_str().is_empty() {
                GtkBoxOptions::just_status("Stopped and Saved env")
            } else {
                GtkBoxOptions::just_status(errors.as_str())
            };
            (EndState::Finished, EndAction::Accept(opts))
        },
        EndState::Finished => (EndState::Finished, EndAction::RemoveSessions),
    }
}

} // verus!
