use ssh_channels_hub::ssh_config::{
    build_entry, extract_defaults, parse_directive, parse_ssh_config_content, SectionVals,
    SshConfigDefaults,
};

#[test]
fn test_parse_simple_ssh_config() {
    let content = r#"
Host myserver
    HostName example.com
    Port 22
    User myuser
    IdentityFile ~/.ssh/id_rsa

Host myserver2
    HostName example2.com
    User user2
"#;

    let entries = parse_ssh_config_content(content).unwrap();
    assert_eq!(entries.len(), 2);

    assert_eq!(entries[0].host, "myserver");
    assert_eq!(entries[0].hostname, Some("example.com".to_string()));
    assert_eq!(entries[0].port, Some(22));
    assert_eq!(entries[0].user, Some("myuser".to_string()));

    assert_eq!(entries[1].host, "myserver2");
    assert_eq!(entries[1].hostname, Some("example2.com".to_string()));
    assert_eq!(entries[1].user, Some("user2".to_string()));
}

#[test]
fn test_default_values_from_wildcard_host() {
    let content = r#"
Host *
    Port 2222
    User defaultuser
    IdentityFile ~/.ssh/default_key

Host myserver
    HostName example.com

Host myserver2
    HostName example2.com
    Port 22
    User customuser
"#;

    let entries = parse_ssh_config_content(content).unwrap();
    assert_eq!(entries.len(), 2);

    // myserver should inherit defaults from Host *
    assert_eq!(entries[0].host, "myserver");
    assert_eq!(entries[0].hostname, Some("example.com".to_string()));
    assert_eq!(entries[0].port, Some(2222)); // From Host *
    assert_eq!(entries[0].user, Some("defaultuser".to_string())); // From Host *
    assert!(entries[0].identity_file.is_some()); // Should have identity file from Host *

    // myserver2 should override defaults
    assert_eq!(entries[1].host, "myserver2");
    assert_eq!(entries[1].hostname, Some("example2.com".to_string()));
    assert_eq!(entries[1].port, Some(22)); // Overridden
    assert_eq!(entries[1].user, Some("customuser".to_string())); // Overridden
}

#[test]
fn test_wildcard_host_not_included_in_entries() {
    let content = r#"
Host *
    Port 2222
    User defaultuser

Host myserver
    HostName example.com
"#;

    let entries = parse_ssh_config_content(content).unwrap();
    // Host "*" should not be included in entries
    assert_eq!(entries.len(), 1);
    assert_eq!(entries[0].host, "myserver");
}

#[test]
fn test_parse_directive_joins_value_tokens() {
    let kv = parse_directive("  HostName   example.com  extra ").unwrap();
    assert_eq!(kv.0, "HostName");
    assert_eq!(kv.1, "example.com extra");

    assert!(parse_directive("HostName").is_none());
    assert!(parse_directive("   ").is_none());
}

#[test]
fn test_directive_keys_match_case_insensitively() {
    let content = "Host box\n  HOSTNAME h.example\n  pOrT 2200\n  USER root\n";
    let entries = parse_ssh_config_content(content).unwrap();
    assert_eq!(entries.len(), 1);
    assert_eq!(entries[0].hostname, Some("h.example".to_string()));
    assert_eq!(entries[0].port, Some(2200));
    assert_eq!(entries[0].user, Some("root".to_string()));
}

#[test]
fn test_repeated_directive_keeps_last_value() {
    let content = "Host box\n  HostName first\n  HostName second\n";
    let entries = parse_ssh_config_content(content).unwrap();
    assert_eq!(entries[0].hostname, Some("second".to_string()));
}

#[test]
fn test_section_without_hostname_is_skipped() {
    let content = "Host pattern-only\n  User nobody\nHost real\n  HostName r.example\n";
    let entries = parse_ssh_config_content(content).unwrap();
    assert_eq!(entries.len(), 1);
    assert_eq!(entries[0].host, "real");
}

#[test]
fn test_unparseable_port_falls_back_to_default() {
    let content = "Host *\n  Port 2222\nHost box\n  HostName h\n  Port notanumber\n";
    let entries = parse_ssh_config_content(content).unwrap();
    assert_eq!(entries.len(), 1);
    assert_eq!(entries[0].port, Some(2222));
}

#[test]
fn test_build_entry_and_extract_defaults() {
    let mut section = SectionVals::new();
    section.apply("hostname", "h.example".to_string());
    section.apply("port", "2201".to_string());
    let defaults = SshConfigDefaults {
        port: None,
        user: Some("fallback".to_string()),
        identity_file: None,
    };
    let e = build_entry("box", &section, &defaults).unwrap();
    assert_eq!(e.host, "box");
    assert_eq!(e.hostname, Some("h.example".to_string()));
    assert_eq!(e.port, Some(2201));
    assert_eq!(e.user, Some("fallback".to_string()));
    assert!(e.identity_file.is_none());

    let mut star = SectionVals::new();
    star.apply("port", "2222".to_string());
    star.apply("user", "defaultuser".to_string());
    let d = extract_defaults(&star);
    assert_eq!(d.port, Some(2222));
    assert_eq!(d.user, Some("defaultuser".to_string()));
    assert!(d.identity_file.is_none());
}

#[test]
fn test_comments_and_blank_lines_are_skipped() {
    let content = "# a comment\n\nHost box\n  # another\n  HostName h\n";
    let entries = parse_ssh_config_content(content).unwrap();
    assert_eq!(entries.len(), 1);
    assert_eq!(entries[0].hostname, Some("h".to_string()));
}
