use ssh_channels_hub::config::{
    default_destination_host, default_listen_host, default_ssh_port, AppConfig, AuthConfig,
    ChannelTypeParams, ConnectionConfig, HostConfig, PortForward, ReconnectionConfig,
};
use ssh_channels_hub::error::AppError;
use ssh_channels_hub::ssh_config::SshConfigEntry;

fn host(name: &str) -> HostConfig {
    HostConfig {
        name: name.to_string(),
        host: "h.example".to_string(),
        port: 2022,
        username: "root".to_string(),
        auth: AuthConfig::Password { password: "pw".to_string() },
    }
}

fn conn(name: &str, hostname: &str, kind: Option<&str>, local: Option<u16>) -> ConnectionConfig {
    ConnectionConfig {
        name: name.to_string(),
        hostname: hostname.to_string(),
        channel_type: kind.map(|k| k.to_string()),
        ports: PortForward { local_port: local, dest_port: 80 },
        dest_host: "127.0.0.1".to_string(),
        listen_host: "127.0.0.1".to_string(),
    }
}

#[test]
fn test_port_forward_parse_accepts_both_ports() {
    let pf = PortForward::parse("80:3923").unwrap();
    assert_eq!(pf.local_port, Some(80));
    assert_eq!(pf.dest_port, 3923);

    // std's integer parser accepts a leading plus; so does this one.
    let pf = PortForward::parse("+80:+90").unwrap();
    assert_eq!(pf.local_port, Some(80));
    assert_eq!(pf.dest_port, 90);
}

#[test]
fn test_port_forward_parse_rejects_malformed() {
    for bad in ["80", "80:3923:1", ":3923", "80:", "abc:1", "1:abc", "70000:1", "1:70000", ""] {
        let r = PortForward::parse(bad);
        assert!(matches!(r, Err(AppError::Config(_))), "should reject {:?}", bad);
    }
}

#[test]
fn test_build_channels_flattens_host_and_channel() {
    let cfg = AppConfig {
        hosts: vec![host("alpha")],
        channels: vec![conn("tunnel", "alpha", None, Some(9000))],
        reconnection: ReconnectionConfig::default(),
    };
    let chans = cfg.build_channels().unwrap();
    assert_eq!(chans.len(), 1);
    let c = &chans[0];
    assert_eq!(c.name, "tunnel");
    assert_eq!(c.host, "h.example");
    assert_eq!(c.port, 2022);
    assert_eq!(c.username, "root");
    assert_eq!(c.channel_type, "direct-tcpip");
    match &c.params {
        ChannelTypeParams::DirectTcpIp { listen_host, local_port, dest_host, dest_port } => {
            assert_eq!(listen_host, "127.0.0.1");
            assert_eq!(*local_port, 9000);
            assert_eq!(dest_host, "127.0.0.1");
            assert_eq!(*dest_port, 80);
        },
        _ => panic!("expected a local forward"),
    }
}

#[test]
fn test_build_channels_remote_forward_ports() {
    let cfg = AppConfig {
        hosts: vec![host("alpha")],
        channels: vec![conn("rev", "alpha", Some("forwarded-tcpip"), Some(8080))],
        reconnection: ReconnectionConfig::default(),
    };
    let chans = cfg.build_channels().unwrap();
    match &chans[0].params {
        ChannelTypeParams::ForwardedTcpIp {
            remote_bind_port,
            local_connect_host,
            local_connect_port,
        } => {
            assert_eq!(*remote_bind_port, 80);
            assert_eq!(local_connect_host, "127.0.0.1");
            assert_eq!(*local_connect_port, 8080);
        },
        _ => panic!("expected a remote forward"),
    }
}

#[test]
fn test_build_channels_session_and_unknown_kind() {
    let cfg = AppConfig {
        hosts: vec![host("alpha")],
        channels: vec![
            conn("sess", "alpha", Some("session"), None),
            conn("odd", "alpha", Some("something-else"), Some(1)),
        ],
        reconnection: ReconnectionConfig::default(),
    };
    let chans = cfg.build_channels().unwrap();
    assert!(matches!(chans[0].params, ChannelTypeParams::Session { command: None }));
    // An unrecognised kind tag is treated as a local forward.
    assert!(matches!(chans[1].params, ChannelTypeParams::DirectTcpIp { .. }));
    assert_eq!(chans[1].channel_type, "something-else");
}

#[test]
fn test_unknown_host_fails_resolution_only_for_that_channel() {
    let cfg = AppConfig {
        hosts: vec![host("alpha")],
        channels: vec![
            conn("good", "alpha", None, Some(9000)),
            conn("bad", "missing", None, Some(9001)),
        ],
        reconnection: ReconnectionConfig::default(),
    };
    // The all-or-nothing builder fails on the unknown reference...
    assert!(matches!(cfg.build_channels(), Err(AppError::Config(_))));
    // ...while per-channel resolution lets the other channel through.
    let results = cfg.resolve_channels();
    assert_eq!(results.len(), 2);
    assert!(results[0].is_ok());
    match &results[1] {
        Err(AppError::Config(m)) => {
            assert!(m.contains("bad") && m.contains("missing"));
        },
        _ => panic!("expected a configuration error for the unknown host"),
    }
}

#[test]
fn test_missing_local_port_fails_resolution() {
    let cfg = AppConfig {
        hosts: vec![host("alpha")],
        channels: vec![
            conn("lf", "alpha", None, None),
            conn("rf", "alpha", Some("forwarded-tcpip"), None),
            conn("ok", "alpha", Some("session"), None),
        ],
        reconnection: ReconnectionConfig::default(),
    };
    let results = cfg.resolve_channels();
    assert!(matches!(results[0], Err(AppError::Config(_))));
    assert!(matches!(results[1], Err(AppError::Config(_))));
    assert!(results[2].is_ok());
}

#[test]
fn test_from_ssh_config_entries_keeps_complete_entries() {
    let entries = vec![
        SshConfigEntry {
            host: "one".to_string(),
            hostname: Some("one.example".to_string()),
            port: Some(2222),
            user: Some("alice".to_string()),
            identity_file: Some("~/.ssh/id_ed25519".to_string()),
        },
        SshConfigEntry {
            host: "no-user".to_string(),
            hostname: Some("two.example".to_string()),
            port: None,
            user: None,
            identity_file: None,
        },
        SshConfigEntry {
            host: "two".to_string(),
            hostname: Some("three.example".to_string()),
            port: None,
            user: Some("bob".to_string()),
            identity_file: None,
        },
    ];
    let cfg = AppConfig::from_ssh_config_entries(entries);
    assert_eq!(cfg.hosts.len(), 2);
    assert_eq!(cfg.hosts[0].name, "one");
    assert_eq!(cfg.hosts[0].port, 2222);
    assert!(matches!(&cfg.hosts[0].auth, AuthConfig::Key { passphrase: None, .. }));
    assert_eq!(cfg.hosts[1].name, "two");
    assert_eq!(cfg.hosts[1].port, 22);
    match &cfg.hosts[1].auth {
        AuthConfig::Password { password } => assert_eq!(password, "CHANGE_ME"),
        _ => panic!("expected the password placeholder"),
    }
    assert!(cfg.channels.is_empty());
    assert_eq!(cfg.reconnection, ReconnectionConfig::default());
}

#[test]
fn test_port_forward_parse_error_messages() {
    let msg = |s: &str| match PortForward::parse(s) {
        Err(AppError::Config(m)) => m,
        _ => panic!("expected a configuration error for {:?}", s),
    };
    assert_eq!(
        msg("80"),
        "Invalid port format '80'. Expected format: 'local:dest' (e.g., '80:3923')"
    );
    assert_eq!(
        msg(":3923"),
        "Invalid port format ':3923'. Local port cannot be empty. Expected format: 'local:dest' (e.g., '80:3923')"
    );
    assert_eq!(
        msg("80:"),
        "Invalid port format '80:'. Destination port cannot be empty. Expected format: 'local:dest' (e.g., '80:3923')"
    );
    assert_eq!(msg("abc:90"), "Invalid local port 'abc'");
    assert_eq!(msg("80:70000"), "Invalid destination port '70000'");
}

#[test]
fn test_resolution_error_messages() {
    let cfg = AppConfig {
        hosts: vec![host("alpha")],
        channels: vec![
            conn("bad", "missing", None, Some(9001)),
            conn("lf", "alpha", None, None),
            conn("rf", "alpha", Some("forwarded-tcpip"), None),
        ],
        reconnection: ReconnectionConfig::default(),
    };
    let results = cfg.resolve_channels();
    let msg = |r: &Result<_, AppError>| match r {
        Err(AppError::Config(m)) => m.clone(),
        _ => panic!("expected a configuration error"),
    };
    assert_eq!(msg(&results[0]), "Channel 'bad' references unknown host 'missing'");
    assert_eq!(
        msg(&results[1]),
        "Channel 'lf': direct-tcpip requires ports local:remote (e.g. 8080:80)"
    );
    assert_eq!(
        msg(&results[2]),
        "Channel 'rf': forwarded-tcpip requires ports local:remote (e.g. 80:8022)"
    );
}

#[test]
fn test_error_messages_carry_through_every_kind() {
    let cases = vec![
        (AppError::Config("a".to_string()), "a"),
        (AppError::SshConnection("b".to_string()), "b"),
        (AppError::SshAuthentication("c".to_string()), "c"),
        (AppError::SshChannel("d".to_string()), "d"),
        (AppError::Io("e".to_string()), "e"),
        (AppError::ConfigParse("f".to_string()), "f"),
        (AppError::Service("g".to_string()), "g"),
    ];
    for (e, want) in cases {
        assert_eq!(e.message(), want);
        assert_eq!(e.clone().message(), want);
    }
}

#[test]
fn test_defaults() {
    assert_eq!(default_ssh_port(), 22);
    assert_eq!(default_listen_host(), "127.0.0.1");
    assert_eq!(default_destination_host(), "127.0.0.1");
    let rc = ReconnectionConfig::default();
    assert_eq!(rc.max_retries, 0);
    assert_eq!(rc.initial_delay_secs, 1);
    assert_eq!(rc.max_delay_secs, 30);
    assert!(rc.use_exponential_backoff);
}

#[test]
fn test_add_host_comments_inserts_comment_lines() {
    let cfg = AppConfig {
        hosts: vec![host("alpha")],
        channels: vec![],
        reconnection: ReconnectionConfig::default(),
    };
    let text = "[[hosts]]\nname = \"alpha\"\n";
    let out = cfg.add_host_comments(text);
    assert_eq!(out, "# Host: alpha (h.example)\n[[hosts]]\nname = \"alpha\"\n");
}

#[test]
fn test_add_host_comments_separates_entries_with_blank_line() {
    let cfg = AppConfig {
        hosts: vec![host("alpha"), host("beta")],
        channels: vec![],
        reconnection: ReconnectionConfig::default(),
    };
    let text = "[[hosts]]\nname = \"alpha\"\n[[hosts]]\nname = \"beta\"\n";
    let out = cfg.add_host_comments(text);
    assert_eq!(
        out,
        "# Host: alpha (h.example)\n[[hosts]]\nname = \"alpha\"\n\n# Host: beta (h.example)\n[[hosts]]\nname = \"beta\"\n"
    );
}

#[test]
fn test_find_host_index_counts_preceding_headers() {
    let cfg = AppConfig {
        hosts: vec![host("alpha"), host("beta")],
        channels: vec![],
        reconnection: ReconnectionConfig::default(),
    };
    let lines: Vec<String> = vec![
        "[[hosts]]".to_string(),
        "name = \"alpha\"".to_string(),
        "[[hosts]]".to_string(),
    ];
    assert_eq!(cfg.find_host_index(&lines, 0), Some(0));
    assert_eq!(cfg.find_host_index(&lines, 2), Some(1));
    let one = AppConfig {
        hosts: vec![host("alpha")],
        channels: vec![],
        reconnection: ReconnectionConfig::default(),
    };
    assert_eq!(one.find_host_index(&lines, 3), None);
}
