use ttgtiso_desk::config::{config_format, config_search_paths, choose_config_path, AgentConfig, ConfigFormat, ConnectionMode, DesktopSessionType};

#[test]
fn agent_config_defaults() {
    let config = AgentConfig::default();
    assert_eq!(config.port, 22);
    assert_eq!(config.bind_address, "127.0.0.1");
    assert!(config.security_policy.allow_password_auth);
    assert!(config.security_policy.enable_audit_logs);
    assert!(config.security_policy.connection_token.is_none());
    assert_eq!(config.connection_mode, ConnectionMode::Desktop);
    assert_eq!(config.desktop_session_type, DesktopSessionType::Auto);
    assert_eq!(config.session_limits.max_concurrent_sessions, 5);
    assert_eq!(config.session_limits.session_timeout_seconds, 3600);
}

#[test]
fn config_file_formats_and_paths() {
    assert_eq!(config_format("toml"), ConfigFormat::Toml);
    assert_eq!(config_format("json"), ConfigFormat::Json);
    assert_eq!(config_format(""), ConfigFormat::TomlThenJson);
    let paths = config_search_paths();
    assert_eq!(paths, vec!["/etc/ttgtiso-desk/agent.toml", "/etc/ttgtiso-desk/agent.json", "agent.toml", "config/agent.toml"]);
    assert_eq!(choose_config_path(&vec![false, true, true, false]), Some(1));
    assert_eq!(choose_config_path(&vec![false, false, false, false]), None);
}

#[test]
fn test_default_config_loading() {
    // With no configuration file at any of the known paths, the secure
    // defaults are the configuration.
    let exists = vec![false; config_search_paths().len()];
    assert_eq!(choose_config_path(&exists), None);
    let config = AgentConfig::default();
    assert_eq!(config.port, 22);
    assert!(config.security_policy.allow_password_auth);
    assert_eq!(config.connection_mode, ConnectionMode::Desktop);
    assert_eq!(config.desktop_session_type, DesktopSessionType::Auto);
}
