use bws_manager::models::ActiveSession;
use bws_manager::session::{
    container_plan, end_step, end_step_possible, find_gtk_ports, start_step, status, DockerSettings, EndAction, EndEvent,
    EndState, GtkBoxOptions, NetworkEndpoint, StartAction, StartEvent, StartState, GTK3_SERVICE_ID,
    GTK4_SERVICE_ID,
};

fn session(id: i32, service: i32, port: Option<i32>, ip: Option<&str>) -> ActiveSession {
    ActiveSession {
        id,
        user: "bob".to_string(),
        service_id: service,
        docker_id: Some(format!("c{}", id)),
        container_ip: ip.map(|s| s.to_string()),
        port,
        unix_created_at: 0,
    }
}

fn settings(network: Option<&str>) -> DockerSettings {
    DockerSettings::new("/srv/homes".to_string(), "vroot:latest".to_string(), network.map(|s| s.to_string()))
}

#[test]
fn gtk_ports_last_session_wins() {
    let v = vec![
        session(1, GTK3_SERVICE_ID, Some(6001), None),
        session(2, GTK4_SERVICE_ID, Some(6002), Some("10.0.0.5")),
        session(3, 7, None, None),
    ];
    let m = find_gtk_ports(&v);
    assert_eq!((m.gtk3, m.gtk4, m.ip.as_str()), (6001, 6002, "10.0.0.5"));
    let none = find_gtk_ports(&vec![]);
    assert_eq!((none.gtk3, none.gtk4, none.ip.as_str()), (0, 0, "127.0.0.1"));
}

#[test]
fn find_status_with_and_without_sessions() {
    let o = GtkBoxOptions::find_status(Some(vec![session(1, GTK3_SERVICE_ID, Some(6001), Some("ip"))]));
    assert!(o.session_exists);
    assert_eq!(o.status_msg, "Active session found");
    assert_eq!((o.gtk3_port, o.gtk4_port), (Some(6001), Some(0)));
    assert_eq!(o.container_ip.as_deref(), Some("ip"));
    let n = GtkBoxOptions::find_status(None);
    assert!(!n.session_exists);
    assert_eq!(n.status_msg, "No active sessions");
    assert!(n.gtk3_port.is_none() && n.container_ip.is_none());
}

#[test]
fn just_status_shows_message_only() {
    let o = GtkBoxOptions::just_status("hello");
    assert!(!o.session_exists);
    assert_eq!(o.status_msg, "hello");
    assert!(o.gtk3_port.is_none() && o.gtk4_port.is_none() && o.container_ip.is_none());
}

#[test]
fn status_filters_by_service() {
    let v = vec![session(1, 5, Some(1), None), session(2, GTK4_SERVICE_ID, Some(2), None), session(3, GTK3_SERVICE_ID, Some(3), None)];
    let filter = vec![GTK3_SERVICE_ID, GTK4_SERVICE_ID];
    let kept = status(Some(v), Some(&filter)).unwrap();
    assert_eq!(kept.iter().map(|s| s.id).collect::<Vec<_>>(), vec![2, 3]);
    let all = status(Some(vec![session(1, 5, None, None)]), None).unwrap();
    assert_eq!(all.len(), 1);
    assert!(status(Some(vec![session(1, 5, None, None)]), Some(&filter)).is_none());
    assert!(status(None, None).is_none());
    assert!(status(Some(vec![]), None).is_none());
}

#[test]
fn settings_empty_network_is_none() {
    assert!(settings(Some("")).common_network.is_none());
    assert_eq!(settings(Some("net")).common_network.as_deref(), Some("net"));
    assert!(settings(None).common_network.is_none());
}

#[test]
fn container_plan_without_network() {
    let p = container_plan(&settings(None), &session(1, GTK3_SERVICE_ID, Some(6001), None), &session(2, GTK4_SERVICE_ID, Some(6002), None));
    assert_eq!(p.image, "vroot:latest");
    assert_eq!(p.name, "vroot-6001-6002");
    assert_eq!(p.env, vec!["BROADWAY_3_PORT=6001".to_string(), "BROADWAY_4_PORT=6002".to_string()]);
    assert_eq!(p.volumes, vec!["/srv/homes/bob:/home/gtk-user".to_string()]);
    assert!(p.network.is_none());
    assert_eq!(p.exposed_ports, vec![6001u32, 6002]);
}

#[test]
fn container_plan_with_network_and_missing_port() {
    let p = container_plan(&settings(Some("bws")), &session(1, GTK3_SERVICE_ID, None, None), &session(2, GTK4_SERVICE_ID, Some(6002), None));
    assert_eq!(p.name, "vroot-0-6002");
    assert_eq!(p.network.as_deref(), Some("bws"));
    assert!(p.exposed_ports.is_empty());
}

#[test]
fn start_with_existing_session_accepts() {
    let s = settings(None);
    let (st, act) = start_step(&s, StartState::CheckingExisting, StartEvent::ExistingSessions(Some(vec![session(1, GTK3_SERVICE_ID, Some(6001), None)])));
    assert!(matches!(st, StartState::Finished));
    match act {
        StartAction::Accept(o) => {
            assert_eq!(o.status_msg, "Session already exists");
            assert!(o.session_exists);
            assert_eq!(o.gtk3_port, Some(6001));
        }
        _ => panic!("expected accept"),
    }
}

#[test]
fn start_full_run_with_network() {
    let s = settings(Some("bws"));
    let (st, act) = start_step(&s, StartState::CheckingExisting, StartEvent::ExistingSessions(None));
    assert!(matches!(act, StartAction::RegisterSessions));
    let (st, act) = start_step(&s, st, StartEvent::Registered(Some(session(7, GTK3_SERVICE_ID, Some(6001), None)), Some(session(8, GTK4_SERVICE_ID, Some(6002), None))));
    match &act {
        StartAction::CreateContainer(p) => assert_eq!(p.name, "vroot-6001-6002"),
        _ => panic!("expected create"),
    }
    let (st, act) = start_step(&s, st, StartEvent::ContainerCreated(true));
    assert!(matches!(act, StartAction::StartContainer));
    let (st, act) = start_step(&s, st, StartEvent::ContainerStarted(false));
    assert!(matches!(act, StartAction::InspectContainer));
    let eps = vec![
        NetworkEndpoint { name: "other".to_string(), ip_address: Some("1.1.1.1".to_string()) },
        NetworkEndpoint { name: "bws".to_string(), ip_address: Some("172.18.0.4".to_string()) },
    ];
    let (st, act) = start_step(&s, st, StartEvent::ContainerInspected(Some(eps)));
    match &act {
        StartAction::StoreDockerIds { gtk3_id, gtk4_id, container_ip } => {
            assert_eq!((*gtk3_id, *gtk4_id, container_ip.as_str()), (7, 8, "172.18.0.4"));
        }
        _ => panic!("expected store"),
    }
    let (st, act) = start_step(&s, st, StartEvent::DockerIdsStored(true));
    assert!(matches!(st, StartState::Finished));
    match act {
        StartAction::Accept(o) => {
            assert_eq!(o.status_msg, "Session created ; Failed to start container");
            assert!(o.session_exists);
            assert_eq!((o.gtk3_port, o.gtk4_port), (Some(6001), Some(6002)));
            assert_eq!(o.container_ip.as_deref(), Some("172.18.0.4"));
        }
        _ => panic!("expected accept"),
    }
}

#[test]
fn start_uninspectable_container_defaults_address() {
    let s = settings(None);
    let st = StartState::Inspecting { gtk3: session(1, GTK3_SERVICE_ID, Some(6001), None), gtk4: session(2, GTK4_SERVICE_ID, Some(6002), None), start_failed: false };
    let (st, act) = start_step(&s, st, StartEvent::ContainerInspected(None));
    match &act {
        StartAction::StoreDockerIds { container_ip, .. } => assert_eq!(container_ip, "127.0.0.1"),
        _ => panic!("expected store"),
    }
    let (_, act) = start_step(&s, st, StartEvent::DockerIdsStored(true));
    match act {
        StartAction::Accept(o) => assert_eq!(o.status_msg, "Session created "),
        _ => panic!("expected accept"),
    }
}

#[test]
fn start_network_without_address_defaults() {
    let s = settings(Some("bws"));
    let st = StartState::Inspecting { gtk3: session(1, GTK3_SERVICE_ID, Some(6001), None), gtk4: session(2, GTK4_SERVICE_ID, Some(6002), None), start_failed: false };
    let eps = vec![NetworkEndpoint { name: "bws".to_string(), ip_address: None }];
    let (_, act) = start_step(&s, st, StartEvent::ContainerInspected(Some(eps)));
    match &act {
        StartAction::StoreDockerIds { container_ip, .. } => assert_eq!(container_ip, "127.0.0.1"),
        _ => panic!("expected store"),
    }
}

#[test]
fn start_registration_failure_rejects() {
    let s = settings(None);
    let (st, act) = start_step(&s, StartState::Registering, StartEvent::Registered(Some(session(1, GTK3_SERVICE_ID, Some(6001), None)), None));
    assert!(matches!(st, StartState::Finished));
    match act {
        StartAction::Reject(o) => assert_eq!(o.status_msg, "Faild to register session"),
        _ => panic!("expected reject"),
    }
}

#[test]
fn start_create_failure_rolls_back() {
    let s = settings(None);
    let st = StartState::Creating { gtk3: session(1, GTK3_SERVICE_ID, Some(6001), None), gtk4: session(2, GTK4_SERVICE_ID, Some(6002), None) };
    let (st, act) = start_step(&s, st, StartEvent::ContainerCreated(false));
    assert!(matches!(act, StartAction::RemoveSessions));
    let (st, act) = start_step(&s, st, StartEvent::SessionsRemoved);
    assert!(matches!(st, StartState::Finished));
    match act {
        StartAction::Reject(o) => assert_eq!(o.status_msg, "Failed to create container"),
        _ => panic!("expected reject"),
    }
}

#[test]
fn start_store_failure_aborts() {
    let s = settings(None);
    let st = StartState::StoringIds { gtk3: session(1, GTK3_SERVICE_ID, Some(6001), None), gtk4: session(2, GTK4_SERVICE_ID, Some(6002), None), container_ip: "x".to_string(), start_failed: false };
    let (_, act) = start_step(&s, st, StartEvent::DockerIdsStored(false));
    assert!(matches!(act, StartAction::Abort));
}

#[test]
fn end_removes_container_then_sessions() {
    let (st, act) = end_step(EndState::CheckingSessions, EndEvent::ActiveSessions(Some(vec![session(4, GTK3_SERVICE_ID, Some(6001), None)])));
    match &act {
        EndAction::RemoveContainer(id) => assert_eq!(id, "c4"),
        _ => panic!("expected container removal"),
    }
    let (st, act) = end_step(st, EndEvent::ContainerRemoved(None));
    assert!(matches!(act, EndAction::RemoveSessions));
    let (st, act) = end_step(st, EndEvent::SessionsRemoved);
    assert!(matches!(st, EndState::Finished));
    match act {
        EndAction::Accept(o) => assert_eq!(o.status_msg, "Stopped and Saved env"),
        _ => panic!("expected accept"),
    }
}

#[test]
fn end_reports_container_error() {
    let (st, _) = end_step(EndState::RemovingContainer, EndEvent::ContainerRemoved(Some("Fault".to_string())));
    let (_, act) = end_step(st, EndEvent::SessionsRemoved);
    match act {
        EndAction::Accept(o) => assert_eq!(o.status_msg, " Docker could not kill container: Fault;"),
        _ => panic!("expected accept"),
    }
}

#[test]
fn end_without_container_or_sessions() {
    let mut s = session(4, GTK3_SERVICE_ID, Some(6001), None);
    s.docker_id = None;
    let (_, act) = end_step(EndState::CheckingSessions, EndEvent::ActiveSessions(Some(vec![s])));
    assert!(matches!(act, EndAction::RemoveSessions));
    let (st, act) = end_step(EndState::CheckingSessions, EndEvent::ActiveSessions(None));
    assert!(matches!(st, EndState::Finished));
    match act {
        EndAction::Reject(o) => assert_eq!(o.status_msg, "Could not get active Sessions"),
        _ => panic!("expected reject"),
    }
}

#[test]
fn container_mounts_the_users_own_home() {
    let mut a = session(1, GTK3_SERVICE_ID, Some(6001), None);
    a.user = "alice".to_string();
    let p = container_plan(&settings(None), &a, &session(2, GTK4_SERVICE_ID, Some(6002), None));
    assert_eq!(p.volumes, vec!["/srv/homes/alice:/home/gtk-user".to_string()]);
}

#[test]
fn start_refuses_a_user_name_that_names_no_home() {
    let s = settings(None);
    for bad in ["../bob", "a/b", "", ".", "..", "a:b"] {
        let mut a = session(1, GTK3_SERVICE_ID, Some(6001), None);
        a.user = bad.to_string();
        let mut b = session(2, GTK4_SERVICE_ID, Some(6002), None);
        b.user = bad.to_string();
        let (st, act) = start_step(&s, StartState::Registering, StartEvent::Registered(Some(a), Some(b)));
        assert!(matches!(act, StartAction::RemoveSessions));
        let (_, act) = start_step(&s, st, StartEvent::SessionsRemoved);
        match act {
            StartAction::Reject(o) => assert_eq!(o.status_msg, "Failed to create container"),
            _ => panic!("expected reject"),
        }
    }
}

#[test]
fn end_events_that_fit() {
    assert!(end_step_possible(&EndState::CheckingSessions, &EndEvent::ActiveSessions(None)));
    assert!(!end_step_possible(&EndState::CheckingSessions, &EndEvent::ActiveSessions(Some(vec![]))));
    assert!(end_step_possible(&EndState::RemovingContainer, &EndEvent::ContainerRemoved(None)));
    assert!(!end_step_possible(&EndState::RemovingContainer, &EndEvent::SessionsRemoved));
    assert!(!end_step_possible(&EndState::Finished, &EndEvent::SessionsRemoved));
}

#[test]
fn start_mounts_a_hidden_users_home() {
    let s = settings(None);
    let mut a = session(1, GTK3_SERVICE_ID, Some(6001), None);
    a.user = ".bob".to_string();
    let mut b = session(2, GTK4_SERVICE_ID, Some(6002), None);
    b.user = ".bob".to_string();
    let (_, act) = start_step(&s, StartState::Registering, StartEvent::Registered(Some(a), Some(b)));
    match act {
        StartAction::CreateContainer(p) => assert_eq!(p.volumes, vec!["/srv/homes/.bob:/home/gtk-user".to_string()]),
        _ => panic!("expected create"),
    }
}
