use cedar_agent::config::{init, Config, LogLevel, Setting, SettingValue, DEFAULT_PORT};

fn sample(port: Option<u16>, addr: Option<&str>) -> Config {
    let mut config = Config::new();
    config.port = port;
    config.addr = addr.map(|text| text.to_string());
    config
}

#[test]
fn merge_of_nothing_sets_nothing() {
    assert_eq!(Config::merge(vec![]), Config::new());
}

#[test]
fn environment_wins_over_command_line() {
    let mut args = sample(Some(1), Some("args"));
    args.log_level = Some(LogLevel::Debug);
    let env = sample(Some(2), None);
    let merged = init(args, env);
    assert_eq!(merged.port, Some(2));
    assert_eq!(merged.addr, Some("args".to_string()));
    assert_eq!(merged.log_level, Some(LogLevel::Debug));
    assert_eq!(merged.authentication, None);
}

#[test]
fn last_source_that_sets_a_field_wins() {
    let mut first = sample(Some(1), Some("first"));
    first.authentication = Some("token".to_string());
    first.file_watcher = Some(false);
    let mut second = sample(None, Some("second"));
    second.data = Some("data.json".to_string());
    second.file_watcher = Some(true);
    let mut third = sample(Some(3), None);
    third.policies = Some("policies.json".to_string());
    let merged = Config::merge(vec![first, second, third]);
    let expected = Config {
        authentication: Some("token".to_string()),
        addr: Some("second".to_string()),
        port: Some(3),
        log_level: None,
        data: Some("data.json".to_string()),
        policies: Some("policies.json".to_string()),
        file_watcher: Some(true),
    };
    assert_eq!(merged, expected);
}

#[test]
fn merge_of_one_source_is_that_source() {
    let mut only = sample(Some(80), Some("localhost"));
    only.log_level = Some(LogLevel::Trace);
    let mut same = sample(Some(80), Some("localhost"));
    same.log_level = Some(LogLevel::Trace);
    assert_eq!(Config::merge(vec![only]), same);
}

fn text(key: &str, value: &str) -> Setting {
    Setting { key: key.to_string(), value: SettingValue::Text(value.to_string()) }
}

#[test]
fn server_is_told_the_default_port_where_none_is_set() {
    assert_eq!(DEFAULT_PORT, 8180);
    assert_eq!(
        Config::new().server_settings(),
        vec![Setting { key: "port".to_string(), value: SettingValue::Port(8180) }]
    );
}

#[test]
fn server_is_told_every_field_that_is_set() {
    let config = Config {
        authentication: Some("token".to_string()),
        addr: Some("0.0.0.0".to_string()),
        port: Some(9000),
        log_level: Some(LogLevel::Warn),
        data: Some("data.json".to_string()),
        policies: Some("policies.json".to_string()),
        file_watcher: Some(false),
    };
    assert_eq!(
        config.server_settings(),
        vec![
            text("authentication", "token"),
            text("address", "0.0.0.0"),
            Setting { key: "port".to_string(), value: SettingValue::Port(9000) },
            text("data", "data.json"),
            text("policy", "policies.json"),
            Setting { key: "file_watcher".to_string(), value: SettingValue::Flag(false) },
        ]
    );
}

#[test]
fn watcher_runs_only_where_it_is_switched_on() {
    let mut config = Config::new();
    assert!(!config.watches_files());
    config.file_watcher = Some(false);
    assert!(!config.watches_files());
    config.file_watcher = Some(true);
    assert!(config.watches_files());
}

#[test]
fn unset_paths_are_empty() {
    let mut config = Config::new();
    assert_eq!(config.data_path(), "");
    assert_eq!(config.policy_path(), "");
    config.data = Some("data.json".to_string());
    config.policies = Some("policies.json".to_string());
    assert_eq!(config.data_path(), "data.json");
    assert_eq!(config.policy_path(), "policies.json");
}
