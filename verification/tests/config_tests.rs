use agpeer::config::{auto_organize_enabled, config_path_from, data_dir_from, AppConfig};
use std::collections::HashMap;

#[test]
fn defaults_use_loopback_port() {
    let config = AppConfig::default();
    assert_eq!(config.server.host, "127.0.0.1");
    assert_eq!(config.server.port, 41000);
}

#[test]
fn db_path_joins_data_dir() {
    let config = AppConfig { data_dir: "test_data_dir".to_string(), ..AppConfig::default() };
    assert_eq!(config.db_path(), "test_data_dir/agpeer.sqlite");
    assert_eq!(config.token_file(), "test_data_dir/token");
}

#[test]
fn soulseek_env_overrides_apply() {
    let mut config = AppConfig::default();
    let overrides = [
        ("AGPEER_SOULSEEK_SERVER_ADDR", "srv.example:1234"),
        ("AGPEER_SOULSEEK_LISTEN_PORT", "4321"),
        ("AGPEER_SOULSEEK_USERNAME", "alice"),
        ("AGPEER_SOULSEEK_PASSWORD", "pw"),
    ]
    .into_iter()
    .collect::<HashMap<_, _>>();
    config.apply_env_overrides_from(|key| overrides.get(key).map(|v| v.to_string()));
    assert_eq!(config.soulseek.server_addr, "srv.example:1234");
    assert_eq!(config.soulseek.listen_port, 4321);
    assert_eq!(config.soulseek.username.as_deref(), Some("alice"));
    assert_eq!(config.soulseek.password.as_deref(), Some("pw"));
}

#[test]
fn storage_root_env_overrides_apply() {
    let mut config = AppConfig::default();
    let overrides = [
        ("AGPEER_TORRENT_DOWNLOAD_ROOT", "/opt/agpeer/downloads"),
        ("AGPEER_SOULSEEK_DOWNLOAD_ROOT", "/opt/agpeer/soulseek-downloads"),
        ("AGPEER_POSTPROCESS_LIBRARY_ROOT", "/opt/agpeer/library"),
        ("AGPEER_TORRENT_LISTEN_PORT", "51234"),
        ("AGPEER_TORRENT_ENABLED", "true"),
        ("AGPEER_TORRENT_ENGINE", "rqbit"),
        ("AGPEER_SOULSEEK_ENABLED", "true"),
        ("AGPEER_HOOK_SEARCH_ENABLED", "true"),
    ]
    .into_iter()
    .collect::<HashMap<_, _>>();
    config.apply_env_overrides_from(|key| overrides.get(key).map(|v| v.to_string()));
    assert_eq!(config.torrent.download_root, "/opt/agpeer/downloads");
    assert_eq!(config.soulseek.download_root, "/opt/agpeer/soulseek-downloads");
    assert_eq!(config.postprocess.library_root, "/opt/agpeer/library");
    assert_eq!(config.torrent.listen_port, Some(51234));
    assert!(config.torrent.enabled);
    assert_eq!(config.torrent.engine, "rqbit");
    assert!(config.soulseek.enabled);
    assert!(config.hook_search.enabled);
}

#[test]
fn storage_root_env_overrides_ignore_empty_values() {
    let mut config = AppConfig::default();
    let torrent_root = config.torrent.download_root.clone();
    let torrent_enabled = config.torrent.enabled;
    let overrides = HashMap::from([("AGPEER_TORRENT_DOWNLOAD_ROOT", "  "), ("AGPEER_TORRENT_ENABLED", "not-a-bool")]);
    config.apply_env_overrides_from(|key| overrides.get(key).map(|v| v.to_string()));
    assert_eq!(config.torrent.download_root, torrent_root);
    assert_eq!(config.torrent.enabled, torrent_enabled);
}

#[test]
fn soulseek_env_override_ignores_invalid_port() {
    let mut config = AppConfig::default();
    let port = config.soulseek.listen_port;
    let overrides = HashMap::from([("AGPEER_SOULSEEK_LISTEN_PORT", "not-a-port")]);
    config.apply_env_overrides_from(|key| overrides.get(key).map(|v| v.to_string()));
    assert_eq!(config.soulseek.listen_port, port);
}

#[test]
fn runtime_env_override_host_port_data_dir() {
    let mut config = AppConfig::default();
    let overrides = [("AGPEER_HOST", "0.0.0.0"), ("AGPEER_PORT", "42000"), ("AGPEER_DATA_DIR", "C:/tmp/agpeer-env-test")]
        .into_iter()
        .collect::<HashMap<_, _>>();
    config.apply_env_overrides_from(|key| overrides.get(key).map(|v| v.to_string()));
    assert_eq!(config.server.host, "0.0.0.0");
    assert_eq!(config.server.port, 42000);
    assert_eq!(config.data_dir, "C:/tmp/agpeer-env-test");
}

#[test]
fn runtime_env_override_ignores_invalid_port() {
    let mut config = AppConfig::default();
    let default_port = config.server.port;
    let overrides = HashMap::from([("AGPEER_PORT", "not-a-port")]);
    config.apply_env_overrides_from(|key| overrides.get(key).map(|v| v.to_string()));
    assert_eq!(config.server.port, default_port);
}

#[test]
fn env_overrides_apply_before_serve_binding() {
    let mut config = AppConfig::default();
    config.apply_env_overrides_from(|key| match key {
        "AGPEER_HOST" => Some("0.0.0.0".into()),
        "AGPEER_DATA_DIR" => Some("temp-dir".into()),
        _ => None,
    });
    assert_eq!(config.server.host, "0.0.0.0");
    assert_eq!(config.data_dir, "temp-dir");
}

#[test]
fn soulseek_env_missing_values_keep_defaults() {
    let config = AppConfig::default();
    let default_addr = config.soulseek.server_addr.clone();
    let mut config = AppConfig::default();
    config.apply_env_overrides_from(|_| None);
    assert_eq!(config.soulseek.server_addr, default_addr);
    assert!(config.soulseek.username.is_none());
}

#[test]
fn env_port_rejects_out_of_range_and_signs() {
    let mut config = AppConfig::default();
    config.apply_env_overrides_from(|key| if key == "AGPEER_PORT" { Some("70000".into()) } else { None });
    assert_eq!(config.server.port, 41000);
    config.apply_env_overrides_from(|key| if key == "AGPEER_PORT" { Some("+8080".into()) } else { None });
    assert_eq!(config.server.port, 8080);
    config.apply_env_overrides_from(|key| if key == "AGPEER_PORT" { Some(" 9000".into()) } else { None });
    assert_eq!(config.server.port, 8080);
}

#[test]
fn auto_organize_needs_a_library_root() {
    let mut config = AppConfig::default();
    config.postprocess.auto_organize = true;
    assert!(!auto_organize_enabled(&config));
    config.postprocess.library_root = "E:\\Media".into();
    assert!(auto_organize_enabled(&config));
}

#[test]
fn data_dir_falls_back_to_relative_data() {
    assert_eq!(data_dir_from(None), "data");
    assert_eq!(data_dir_from(Some("/home/u/.local/share/agpeer".to_string())), "/home/u/.local/share/agpeer");
}

#[test]
fn config_path_is_agpeer_toml_in_config_dir() {
    assert_eq!(config_path_from(None), "agpeer.toml");
    assert_eq!(config_path_from(Some("/home/u/.config/agpeer".to_string())), "/home/u/.config/agpeer/agpeer.toml");
    assert_eq!(config_path_from(Some("C:\\Users\\u\\agpeer".to_string())), "C:\\Users\\u\\agpeer\\agpeer.toml");
}
