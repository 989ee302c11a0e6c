use ssh_channels_hub::control::{
    derived_stopped_status, handle_request, parse_status_toml, pid_file_path, port_file_path,
    run_dir, state_display, status_to_toml,
};
use ssh_channels_hub::service::{ServiceState, ServiceStatus};

fn status(state: ServiceState, active: usize, total: usize) -> ServiceStatus {
    ServiceStatus { state, active_channels: active, total_channels: total }
}

#[test]
fn test_status_record_exact_text() {
    let st = status(ServiceState::Running, 2, 3);
    assert_eq!(
        status_to_toml(&st),
        "state = \"Running\"\nactive_channels = 2\ntotal_channels = 3"
    );
    let st = status(ServiceState::Error("boom".to_string()), 0, 7);
    assert_eq!(
        status_to_toml(&st),
        "state = \"Error\"\nactive_channels = 0\ntotal_channels = 7"
    );
}

#[test]
fn test_status_record_round_trip_all_states() {
    let states = vec![
        ServiceState::Stopped,
        ServiceState::Starting,
        ServiceState::Running,
        ServiceState::Stopping,
        ServiceState::Error("a reason the record does not carry".to_string()),
    ];
    for (i, s) in states.into_iter().enumerate() {
        let st = status(s, i, i + 41);
        let body = status_to_toml(&st);
        let back = parse_status_toml(&body).expect("a generated record must decode");
        match (&st.state, &back.state) {
            (ServiceState::Error(_), ServiceState::Error(m)) => assert_eq!(m, ""),
            (a, b) => assert_eq!(a, b),
        }
        assert_eq!(back.active_channels, st.active_channels);
        assert_eq!(back.total_channels, st.total_channels);
    }
}

#[test]
fn test_parse_status_rejects_malformed_records() {
    for bad in [
        "",
        "state = \"Running\"",
        "state = \"Running\"\nactive_channels = 1",
        "state = Running\nactive_channels = 1\ntotal_channels = 2",
        "state = \"Sleeping\"\nactive_channels = 1\ntotal_channels = 2",
        "state = \"Running\"\nactive_channels = x\ntotal_channels = 2",
        "state = \"Running\"\nactive_channels = 1\ntotal_channels = ",
        "state = \"Running\"\nactive_channels = 1\ntotal_channels = 2\nextra = 3",
    ] {
        assert!(parse_status_toml(bad).is_none(), "should reject {:?}", bad);
    }
}

#[test]
fn test_handle_request_stop_is_case_insensitive_and_trimmed() {
    let st = status(ServiceState::Running, 1, 1);
    for line in ["stop", "STOP", "Stop", "  stop  ", "\tSTOP\r"] {
        let (is_stop, body) = handle_request(line, &st);
        assert!(is_stop, "{:?} should stop", line);
        assert_eq!(body, "ok\n");
    }
}

#[test]
fn test_handle_request_anything_else_returns_status() {
    let st = status(ServiceState::Running, 1, 2);
    for line in ["status", "", "  ", "help", "stopp"] {
        let (is_stop, body) = handle_request(line, &st);
        assert!(!is_stop, "{:?} is a status request", line);
        assert_eq!(body, "state = \"Running\"\nactive_channels = 1\ntotal_channels = 2");
    }
}

#[test]
fn test_control_status_matches_in_process_status() {
    // What a control-plane client decodes equals what the daemon's
    // own status call reported.
    let st = status(ServiceState::Running, 3, 5);
    let (_, body) = handle_request("status", &st);
    let seen = parse_status_toml(&body).unwrap();
    assert_eq!(seen.state, st.state);
    assert_eq!(seen.active_channels, st.active_channels);
    assert_eq!(seen.total_channels, st.total_channels);
}

#[test]
fn test_derived_stopped_status() {
    let st = derived_stopped_status(4);
    assert_eq!(st.state, ServiceState::Stopped);
    assert_eq!(st.active_channels, 0);
    assert_eq!(st.total_channels, 4);
}

#[test]
fn test_run_file_paths_sit_beside_the_config() {
    assert_eq!(run_dir("/etc/app/configs.toml"), "/etc/app");
    assert_eq!(pid_file_path("/etc/app/configs.toml"), "/etc/app/ssh-channels-hub.pid");
    assert_eq!(port_file_path("/etc/app/configs.toml"), "/etc/app/ssh-channels-hub.port");
    assert_eq!(run_dir("configs.toml"), "");
    assert_eq!(pid_file_path("configs.toml"), "ssh-channels-hub.pid");
    assert_eq!(run_dir("/configs.toml"), "/");
    assert_eq!(pid_file_path("/configs.toml"), "/ssh-channels-hub.pid");
    assert_eq!(run_dir(""), ".");
    assert_eq!(port_file_path(""), "./ssh-channels-hub.port");
}

#[test]
fn test_state_display_markers() {
    assert_eq!(state_display(&ServiceState::Running), "🟢 Running");
    assert_eq!(state_display(&ServiceState::Stopped), "🔴 Stopped");
    assert_eq!(state_display(&ServiceState::Starting), "🟡 Starting");
    assert_eq!(state_display(&ServiceState::Stopping), "🟠 Stopping");
    assert_eq!(state_display(&ServiceState::Error("x".to_string())), "❌ Error");
}
