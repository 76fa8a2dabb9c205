use auroradb::config::{
    AuroraConfig, ConfigError, ConfigManager, EnvOverrides, LoadedConfigFile, create_config_manager, parse_bool,
    parse_size, parse_u16, parse_usize, trim_text,
};

fn no_env() -> EnvOverrides {
    EnvOverrides {
        db_max_connections: None,
        db_buffer_pool_size: None,
        server_postgresql_port: None,
        server_http_port: None,
        security_tls_enabled: None,
        log_level: None,
    }
}

#[test]
fn test_parse_size() {
    assert_eq!(parse_size("1024").unwrap(), 1024);
    assert_eq!(parse_size("1KB").unwrap(), 1024);
    assert_eq!(parse_size("1MB").unwrap(), 1024 * 1024);
    assert_eq!(parse_size("1GB").unwrap(), 1024 * 1024 * 1024);
}

#[test]
fn test_config_validation() {
    let config = AuroraConfig::default();
    assert!(config.validate().is_ok());
}

#[test]
fn test_config_manager() {
    let manager = ConfigManager::new();
    let config = manager.get_config().unwrap();
    assert_eq!(config.database.max_connections, 1000);
}

#[test]
fn parse_size_edge_cases() {
    assert_eq!(parse_size("  512mb ").unwrap(), 512 * 1024 * 1024);
    assert_eq!(parse_size("+8").unwrap(), 8);
    assert_eq!(parse_size("2Kb").unwrap(), 2048);
    assert!(matches!(parse_size("MB"), Err(ConfigError::InvalidSize(s)) if s == "MB"));
    assert!(matches!(parse_size(""), Err(ConfigError::InvalidSize(s)) if s.is_empty()));
    assert!(matches!(parse_size("12TB"), Err(ConfigError::UnknownSizeUnit(s)) if s == "TB"));
    assert!(matches!(parse_size("x1KB"), Err(ConfigError::InvalidNumber(s)) if s == "x1"));
    assert!(matches!(parse_size("-1KB"), Err(ConfigError::InvalidNumber(s)) if s == "-1"));
}

#[test]
fn number_and_bool_parsing() {
    assert_eq!(parse_usize("42"), Some(42));
    assert_eq!(parse_usize("+7"), Some(7));
    assert_eq!(parse_usize("-7"), None);
    assert_eq!(parse_usize(""), None);
    assert_eq!(parse_usize("+"), None);
    assert_eq!(parse_usize("4 2"), None);
    assert_eq!(parse_usize("18446744073709551615"), Some(usize::MAX));
    assert_eq!(parse_u16("65535"), Some(65535));
    assert_eq!(parse_u16("65536"), None);
    assert_eq!(parse_bool("true"), Some(true));
    assert_eq!(parse_bool("false"), Some(false));
    assert_eq!(parse_bool("True"), None);
    assert_eq!(trim_text("\t hi \n"), "hi");
}

#[test]
fn validation_reports_fields_out_of_range() {
    let mut config = AuroraConfig::default();
    config.database.max_connections = 0;
    config.server.http_port = 80;
    config.storage.compression.level = 10;
    config.monitoring.alert_thresholds.cpu_high_threshold = 0;
    match config.validate() {
        Err(e) => assert_eq!(
            e.fields,
            vec![
                "database.max_connections".to_string(),
                "server.http_port".to_string(),
                "storage.compression.level".to_string(),
                "monitoring.alert_thresholds.cpu_high_threshold".to_string(),
            ]
        ),
        Ok(()) => panic!("out-of-range fields must be reported"),
    }
}

#[test]
fn defaults_match_the_documented_values() {
    let c = AuroraConfig::default();
    assert_eq!(c.database.buffer_pool_size, 1_073_741_824);
    assert_eq!(c.server.postgresql_port, 5433);
    assert_eq!(c.storage.wal.directory, "/var/lib/aurora/wal");
    assert_eq!(c.network.tls.min_version, "TLS1.2");
    assert_eq!(c.logging.file, Some("/var/log/aurora/aurora.log".to_string()));
    assert_eq!(c.vector.default_dimension, 384);
    assert_eq!(c.audit.retention_days, 365);
    assert_eq!(c.storage.hybrid.vector_threshold, 100);
}

#[test]
fn environment_overrides_apply_in_order() {
    let env = EnvOverrides {
        db_max_connections: Some("250".to_string()),
        db_buffer_pool_size: Some("2GB".to_string()),
        server_postgresql_port: Some("6543".to_string()),
        server_http_port: None,
        security_tls_enabled: Some("true".to_string()),
        log_level: Some("debug".to_string()),
    };
    let mut manager = ConfigManager::new();
    manager.load_config(None, &env).unwrap();
    let c = manager.get_config().unwrap();
    assert_eq!(c.database.max_connections, 250);
    assert_eq!(c.database.buffer_pool_size, 2 * 1024 * 1024 * 1024);
    assert_eq!(c.server.postgresql_port, 6543);
    assert_eq!(c.server.http_port, 8080);
    assert!(c.network.tls.enabled);
    assert_eq!(c.logging.level, "debug");
    assert_eq!(manager.config_path(), None);
}

#[test]
fn bad_overrides_and_invalid_results_are_refused() {
    let mut env = no_env();
    env.server_http_port = Some("http".to_string());
    let mut manager = ConfigManager::new();
    assert!(matches!(manager.load_config(None, &env), Err(ConfigError::InvalidNumber(s)) if s == "http"));
    let mut env = no_env();
    env.security_tls_enabled = Some("yes".to_string());
    assert!(matches!(manager.load_config(None, &env), Err(ConfigError::InvalidBool(s)) if s == "yes"));
    let mut env = no_env();
    env.db_max_connections = Some("0".to_string());
    match manager.load_config(None, &env) {
        Err(ConfigError::Invalid(e)) => assert_eq!(e.fields, vec!["database.max_connections".to_string()]),
        _ => panic!("a zero connection limit is out of range"),
    }
    assert_eq!(manager.get_config().unwrap().database.max_connections, 1000);
}

#[test]
fn loading_a_file_keeps_its_path() {
    let mut file_config = AuroraConfig::default();
    file_config.server.hostname = "db1".to_string();
    let file = LoadedConfigFile { path: "/etc/aurora.toml".to_string(), config: file_config };
    let manager = create_config_manager(Some(file), &no_env()).unwrap();
    assert_eq!(manager.config_path(), Some("/etc/aurora.toml".to_string()));
    assert_eq!(manager.get_config().unwrap().server.hostname, "db1");
}

#[test]
fn update_config_refuses_invalid_configuration() {
    let mut manager = ConfigManager::new();
    let mut bad = AuroraConfig::default();
    bad.security.password_min_length = 4;
    assert!(manager.update_config(bad).is_err());
    let mut good = AuroraConfig::default();
    good.security.password_min_length = 12;
    manager.update_config(good).unwrap();
    assert_eq!(manager.get_config().unwrap().security.password_min_length, 12);
}

#[test]
fn config_error_messages() {
    assert_eq!(ConfigError::InvalidSize("x".to_string()).message(), "Invalid size format: x");
    assert_eq!(ConfigError::UnknownSizeUnit("TB".to_string()).message(), "Unknown size unit: TB");
}
