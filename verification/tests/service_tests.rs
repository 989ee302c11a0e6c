use ssh_channels_hub::config::{
    AppConfig, AuthConfig, ConnectionConfig, HostConfig, PortForward, ReconnectionConfig,
};
use ssh_channels_hub::error::AppError;
use ssh_channels_hub::port_check::collect_occupied;
use ssh_channels_hub::service::{ServiceManager, ServiceState};

fn host(name: &str) -> HostConfig {
    HostConfig {
        name: name.to_string(),
        host: "h.example".to_string(),
        port: 22,
        username: "root".to_string(),
        auth: AuthConfig::Password { password: "pw".to_string() },
    }
}

fn local_forward(name: &str, hostname: &str, listen: u16, dest: u16) -> ConnectionConfig {
    ConnectionConfig {
        name: name.to_string(),
        hostname: hostname.to_string(),
        channel_type: None,
        ports: PortForward { local_port: Some(listen), dest_port: dest },
        dest_host: "127.0.0.1".to_string(),
        listen_host: "127.0.0.1".to_string(),
    }
}

fn two_channel_config() -> AppConfig {
    AppConfig {
        hosts: vec![host("alpha")],
        channels: vec![
            local_forward("web", "alpha", 9000, 80),
            local_forward("ghost", "unknown-host", 9001, 81),
        ],
        reconnection: ReconnectionConfig::default(),
    }
}

#[test]
fn test_new_manager_is_stopped() {
    let mgr = ServiceManager::new(two_channel_config());
    let st = mgr.status();
    assert_eq!(st.state, ServiceState::Stopped);
    assert_eq!(st.active_channels, 0);
    assert_eq!(st.total_channels, 2);
}

#[test]
fn test_status_twice_is_identical() {
    let mgr = ServiceManager::new(two_channel_config());
    let a = mgr.status();
    let b = mgr.status();
    assert_eq!(a.state, b.state);
    assert_eq!(a.active_channels, b.active_channels);
    assert_eq!(a.total_channels, b.total_channels);
}

#[test]
fn test_occupied_port_fails_whole_start() {
    // An occupied local-forward listen port is an all-or-nothing
    // gate: the start fails and zero channels come up.
    let mut mgr = ServiceManager::new(two_channel_config());
    mgr.begin_start().unwrap();
    let ports = mgr.ports_to_check();
    assert_eq!(ports, vec![9000, 9001]);
    let r = mgr.apply_port_check(&vec![9000]);
    assert!(matches!(r, Err(AppError::Service(_))));
    let st = mgr.status();
    assert!(matches!(st.state, ServiceState::Error(_)));
    assert_eq!(st.active_channels, 0);
}

#[test]
fn test_start_with_partial_failures_still_runs() {
    // One resolvable channel and one referencing an unknown host:
    // the start succeeds with one active channel out of two.
    let mut mgr = ServiceManager::new(two_channel_config());
    mgr.begin_start().unwrap();
    mgr.apply_port_check(&vec![]).unwrap();
    let plan = mgr.plan_channels();
    assert_eq!(plan.len(), 2);
    assert!(plan[0].is_ok());
    match &plan[1] {
        Err(AppError::Config(m)) => assert!(m.contains("ghost")),
        _ => panic!("expected a configuration error naming the channel"),
    }
    let started: Vec<bool> = plan.iter().map(|r| r.is_ok()).collect();
    mgr.complete_start(&started).unwrap();
    let st = mgr.status();
    assert_eq!(st.state, ServiceState::Running);
    assert_eq!(st.active_channels, 1);
    assert_eq!(st.total_channels, 2);
    assert!(st.active_channels <= st.total_channels);
}

#[test]
fn test_start_with_no_channel_up_fails() {
    let mut mgr = ServiceManager::new(two_channel_config());
    mgr.begin_start().unwrap();
    mgr.apply_port_check(&vec![]).unwrap();
    let r = mgr.complete_start(&vec![false, false]);
    assert!(matches!(r, Err(AppError::Service(_))));
    let st = mgr.status();
    assert!(matches!(st.state, ServiceState::Error(_)));
    assert_eq!(st.active_channels, 0);
}

#[test]
fn test_start_refused_unless_stopped() {
    let mut mgr = ServiceManager::new(two_channel_config());
    mgr.begin_start().unwrap();
    let r = mgr.begin_start();
    assert!(matches!(r, Err(AppError::Service(_))));
}

#[test]
fn test_stop_on_not_running_leaves_state_unchanged() {
    let mut mgr = ServiceManager::new(two_channel_config());
    let before = mgr.status();
    let r = mgr.stop();
    assert!(matches!(r, Err(AppError::Service(_))));
    let after = mgr.status();
    assert_eq!(before.state, after.state);
    assert_eq!(before.active_channels, after.active_channels);
}

#[test]
fn test_stop_returns_to_stopped() {
    let mut mgr = ServiceManager::new(two_channel_config());
    mgr.begin_start().unwrap();
    mgr.apply_port_check(&vec![]).unwrap();
    mgr.complete_start(&vec![true, false]).unwrap();
    mgr.stop().unwrap();
    let st = mgr.status();
    assert_eq!(st.state, ServiceState::Stopped);
    assert_eq!(st.active_channels, 0);
    // After a stop, a new start is allowed again.
    assert!(mgr.begin_start().is_ok());
}

#[test]
fn test_collect_occupied_keeps_unavailable_ports() {
    let ports: Vec<u16> = vec![9000, 9001, 9002];
    let available = vec![true, false, false];
    assert_eq!(collect_occupied(&ports, &available), vec![9001, 9002]);
    assert_eq!(collect_occupied(&vec![], &vec![]), Vec::<u16>::new());
}

#[test]
fn test_ports_to_check_skips_sessions_and_remote_forwards() {
    let cfg = AppConfig {
        hosts: vec![host("alpha")],
        channels: vec![
            local_forward("web", "alpha", 9000, 80),
            ConnectionConfig {
                name: "sess".to_string(),
                hostname: "alpha".to_string(),
                channel_type: Some("session".to_string()),
                ports: PortForward { local_port: Some(1), dest_port: 1 },
                dest_host: "127.0.0.1".to_string(),
                listen_host: "127.0.0.1".to_string(),
            },
            ConnectionConfig {
                name: "rev".to_string(),
                hostname: "alpha".to_string(),
                channel_type: Some("forwarded-tcpip".to_string()),
                ports: PortForward { local_port: Some(8080), dest_port: 8022 },
                dest_host: "127.0.0.1".to_string(),
                listen_host: "127.0.0.1".to_string(),
            },
        ],
        reconnection: ReconnectionConfig::default(),
    };
    let mgr = ServiceManager::new(cfg);
    assert_eq!(mgr.ports_to_check(), vec![9000]);
}
