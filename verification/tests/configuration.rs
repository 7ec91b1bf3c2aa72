use ai_switch::config::default_health_timeout;
use ai_switch::config::deserialize_optional_pathbuf;
use ai_switch::config::deserialize_path;
use ai_switch::config::example_config;
use ai_switch::config::Config;
use ai_switch::config::ConfigError;
use ai_switch::config::ConfigSource;
use ai_switch::config::GlobalSettings;
use ai_switch::config::ModelConfig;
use ai_switch::io_error::IoError;
use ai_switch::io_error::IoErrorKind;
use ai_switch::preferences::save_preferences;
use ai_switch::preferences::PreferencesDialog;
use ai_switch::preferences::PreferencesValues;
use ai_switch::preferences::WriteFailure;

fn model(id: &str, script: &str, port: u16) -> ModelConfig {
    ModelConfig {
        id: id.to_string(),
        name: format!("Model {}", id),
        script_path: script.to_string(),
        port,
        health_timeout_sec: 30,
    }
}

fn config(models: Vec<ModelConfig>) -> Config {
    Config { schema_version: 1, models, global: GlobalSettings::default() }
}

#[test]
fn test_validate_empty_model_list() {
    let config = Config { schema_version: 1, models: vec![], global: GlobalSettings::default() };
    let result = Config::validate(&config, "/tmp", &vec![]);
    assert!(result.is_err());
    assert!(result.unwrap_err().to_string().contains("no models configured"));
}

#[test]
fn test_validate_duplicate_ports() {
    let script1 = "/tmp/model1.sh".to_string();
    let script2 = "/tmp/model2.sh".to_string();
    let config = Config {
        schema_version: 1,
        models: vec![
            ModelConfig {
                id: "m1".to_string(),
                name: "Model 1".to_string(),
                script_path: script1.clone(),
                port: 8081,
                health_timeout_sec: 30,
            },
            ModelConfig {
                id: "m2".to_string(),
                name: "Model 2".to_string(),
                script_path: script2.clone(),
                port: 8081,
                health_timeout_sec: 30,
            },
        ],
        global: GlobalSettings::default(),
    };
    let result = Config::validate(&config, "/tmp", &vec![script1, script2]);
    assert!(result.is_err());
    let message = result.unwrap_err().to_string();
    assert!(message.contains("duplicate port"));
    assert_eq!(message, "configuration error: duplicate port 8081 for models 'm1' and 'm2'");
}

#[test]
fn test_validate_missing_script() {
    let config = Config {
        schema_version: 1,
        models: vec![ModelConfig {
            id: "m1".to_string(),
            name: "Model 1".to_string(),
            script_path: "/tmp/nonexistent.sh".to_string(),
            port: 8081,
            health_timeout_sec: 30,
        }],
        global: GlobalSettings::default(),
    };
    let result = Config::validate(&config, "/tmp", &vec![]);
    assert!(result.is_err());
    let message = result.unwrap_err().to_string();
    assert!(message.contains("script not found"));
    assert_eq!(
        message,
        "configuration error: script not found: /tmp/nonexistent.sh (configured for model 'm1')"
    );
}

#[test]
fn test_default_log_dir() {
    let dir = Config::default_log_dir(Some("/home/user"));
    assert!(dir.ends_with(".local/share/ai-switch/logs/"));
    assert_eq!(dir, "/home/user/.local/share/ai-switch/logs/");
    assert_eq!(Config::default_log_dir(None), "logs/");
}

#[test]
fn test_defaults() {
    assert_eq!(Config::default_proxy_port(), 9080);
    assert!(Config::default_auto_restart_on_context_full());
}

#[test]
fn valid_configuration_passes_unchanged() {
    let c = config(vec![model("a", "/s/a.sh", 8081), model("b", "/s/b.sh", 8082)]);
    let scripts = vec!["/s/b.sh".to_string(), "/s/a.sh".to_string()];
    let checked = Config::validate(&c, "/c.toml", &scripts).unwrap();
    assert_eq!(checked.models.len(), 2);
    assert_eq!(checked.models[1].id, "b");
    assert_eq!(checked.models[1].port, 8082);
    assert_eq!(checked.models[0].script_path, "/s/a.sh");
}

#[test]
fn duplicate_ports_come_before_missing_scripts() {
    let c = config(vec![model("a", "/s/a.sh", 8081), model("b", "/s/b.sh", 8081)]);
    let message = Config::validate(&c, "/c.toml", &vec![]).unwrap_err().to_string();
    assert_eq!(message, "configuration error: duplicate port 8081 for models 'a' and 'b'");
}

#[test]
fn two_models_with_one_id_and_one_port_name_that_id_twice() {
    let c = config(vec![model("a", "/s/a.sh", 8081), model("a", "/s/b.sh", 8081)]);
    let message = Config::validate(&c, "/c.toml", &vec![]).unwrap_err().to_string();
    assert_eq!(message, "configuration error: duplicate port 8081 for models 'a' and 'a'");
}

#[test]
fn loading_tells_each_failure_apart() {
    let none: Vec<String> = vec![];
    let missing = Config::load(ConfigSource::Missing, "/c.toml", &none).unwrap_err();
    assert!(matches!(missing, ConfigError::NotFound));
    assert_eq!(missing.to_string(), "no config file found at any expected location");
    let denied = IoError::new(IoErrorKind::Os(13), "denied".to_string());
    let io = Config::load(ConfigSource::Unreadable(denied), "/c.toml", &none).unwrap_err();
    assert_eq!(io.to_string(), "I/O error reading config: denied");
    match io {
        ConfigError::Io(e) => assert_eq!(e.kind(), IoErrorKind::Os(13)),
        other => panic!("{:?}", other),
    }
    let toml = Config::load(ConfigSource::Unparsable("bad".to_string()), "/c.toml", &none);
    assert_eq!(toml.unwrap_err().to_string(), "TOML parse error: bad");
    let invalid = Config::load(ConfigSource::Parsed(config(vec![])), "/c.toml", &none);
    assert!(matches!(invalid.unwrap_err(), ConfigError::Validation(_)));
    let good = config(vec![model("a", "/s/a.sh", 8081)]);
    let loaded = Config::load(ConfigSource::Parsed(good), "/c.toml", &vec!["/s/a.sh".to_string()]);
    assert_eq!(loaded.unwrap().models[0].id, "a");
}

#[test]
fn serialize_errors_are_told_as_toml_errors() {
    assert_eq!(ConfigError::from_serialize_error("x").to_string(), "TOML parse error: x\n");
    let wrapped = <toml::de::Error as serde::de::Error>::custom("x");
    assert_eq!(
        ConfigError::from_serialize_error("x").to_string(),
        ConfigError::TomlParse(wrapped.to_string()).to_string()
    );
}

#[test]
fn the_preferred_configuration_file_wins() {
    let xdg = "/x/ai-switch/config.toml".to_string();
    let home = "/h/.config/ai-switch/config.toml".to_string();
    let both = vec![home.clone(), xdg.clone()];
    assert_eq!(Config::resolve_path(Some("/x"), Some("/h"), &both), Some(xdg.clone()));
    assert_eq!(Config::resolve_path(Some("/x"), Some("/h"), &vec![home.clone()]), Some(home.clone()));
    assert_eq!(Config::resolve_path(None, Some("/h"), &both), Some(home));
    assert_eq!(Config::resolve_path(None, None, &both), None);
    assert_eq!(Config::resolve_path(Some("/x"), Some("/h"), &vec![]), None);
}

#[test]
fn settings_that_are_set_replace_the_defaults() {
    let mut c = config(vec![]);
    assert_eq!(c.proxy_port(), 9080);
    assert!(c.auto_restart_on_context_full());
    assert_eq!(c.log_dir(Some("/h")), "/h/.local/share/ai-switch/logs/");
    c.global.proxy_port = Some(7000);
    c.global.auto_restart_on_context_full = Some(false);
    c.global.log_dir = Some("/var/log".to_string());
    assert_eq!(c.proxy_port(), 7000);
    assert!(!c.auto_restart_on_context_full());
    assert_eq!(c.log_dir(Some("/h")), "/var/log");
}

#[test]
fn an_empty_log_directory_stands_for_none() {
    assert_eq!(deserialize_optional_pathbuf(Some(String::new())), None);
    assert_eq!(deserialize_optional_pathbuf(Some("/l".to_string())), Some("/l".to_string()));
    assert_eq!(deserialize_optional_pathbuf(None), None);
    assert_eq!(deserialize_path("/s.sh".to_string()), "/s.sh");
    assert_eq!(default_health_timeout(), 30);
}

#[test]
fn the_example_is_a_configuration() {
    let parsed: toml::Value = toml::from_str(example_config()).unwrap();
    assert_eq!(parsed["schema_version"].as_integer(), Some(1));
    assert_eq!(parsed["models"][0]["port"].as_integer(), Some(8081));
    assert_eq!(parsed["global"]["proxy_port"].as_integer(), Some(9080));
    assert_eq!(parsed["global"]["log_dir"].as_str(), Some(""));
}

fn form(log_dir: &str, port: &str, auto_restart: bool) -> PreferencesDialog {
    PreferencesDialog {
        log_dir_text: log_dir.to_string(),
        proxy_port_text: port.to_string(),
        auto_restart,
    }
}

#[test]
fn the_form_gives_its_values() {
    let v = form("/l", "8088", false).values();
    assert_eq!(v.log_dir, Some("/l".to_string()));
    assert_eq!(v.proxy_port, Some(8088));
    assert!(!v.auto_restart_on_context_full);
    let v = form("", "x", true).values();
    assert_eq!(v.log_dir, None);
    assert_eq!(v.proxy_port, None);
    assert!(v.auto_restart_on_context_full);
    assert_eq!(form("", "65535", true).values().proxy_port, Some(65535));
    assert_eq!(form("", "65536", true).values().proxy_port, None);
    assert_eq!(form("", "+80", true).values().proxy_port, Some(80));
    assert_eq!(form("", "+", true).values().proxy_port, None);
    assert_eq!(form("", " 80", true).values().proxy_port, None);
    assert_eq!(form("", "0080", true).values().proxy_port, Some(80));
}

#[test]
fn an_unedited_form_keeps_the_effective_settings() {
    let before = config(vec![model("a", "/s/a.sh", 8081)]);
    let values = PreferencesDialog::new(&before, Some("/h")).values();
    let after = values.apply(before.clone());
    assert_eq!(after.log_dir(Some("/h")), before.log_dir(Some("/h")));
    assert_eq!(after.proxy_port(), 9080);
    assert_eq!(after.global.proxy_port, Some(9080));
    assert!(after.auto_restart_on_context_full());
}

#[test]
fn saving_changes_the_settings_alone() {
    let found = config(vec![model("a", "/s/a.sh", 8081)]);
    let scripts = vec!["/s/a.sh".to_string()];
    let saved = form("/l", "8088", false)
        .save(ConfigSource::Parsed(found), "/c.toml", &scripts, &scripts)
        .unwrap();
    assert_eq!(saved.models[0].id, "a");
    assert_eq!(saved.models[0].port, 8081);
    assert_eq!(saved.schema_version, 1);
    assert_eq!(saved.global.log_dir, Some("/l".to_string()));
    assert_eq!(saved.global.proxy_port, Some(8088));
    assert_eq!(saved.global.auto_restart_on_context_full, Some(false));
}

#[test]
fn a_saved_log_directory_is_read_back() {
    for text in vec!["", "/l", " "] {
        let saved = form(text, "1", true).values().log_dir;
        assert_eq!(deserialize_optional_pathbuf(saved.clone()), saved);
    }
}

#[test]
fn failed_saves_say_why() {
    let values =
        PreferencesValues { log_dir: None, proxy_port: None, auto_restart_on_context_full: true };
    let scripts = vec!["/s/a.sh".to_string()];
    let none: Vec<String> = vec![];
    let missing = save_preferences(&values, ConfigSource::Missing, "/c.toml", &scripts, &scripts);
    assert_eq!(
        missing.unwrap_err(),
        "Failed to load config: no config file found at any expected location"
    );
    let found = config(vec![model("a", "/s/a.sh", 8081)]);
    let gone = save_preferences(&values, ConfigSource::Parsed(found), "/c.toml", &scripts, &none);
    assert_eq!(
        gone.unwrap_err(),
        "Config validation error: configuration error: script not found: /s/a.sh (configured for model 'a')"
    );
    assert_eq!(
        WriteFailure::Serialize("s".to_string()).to_string(),
        "Failed to serialize config: s"
    );
    assert_eq!(WriteFailure::Write("w".to_string()).to_string(), "Failed to write config file: w");
}
