use screen_light::config::{config_file_text, Config, CONFIG_FILE_NAME};

#[test]
fn default_config_matches_readme() {
    let c = Config::default();
    assert_eq!(c.idle_delay_seconds, 1);
    assert_eq!(c.active_brightness, 75);
    assert_eq!(c.inactive_brightness, 0);
    assert!(c.hotkey_enabled);
    assert_eq!(CONFIG_FILE_NAME, "config.yaml");
}

#[test]
fn default_config_file_text() {
    assert_eq!(
        config_file_text(&Config::default()),
        "idle_delay_seconds: 1\nactive_brightness: 75\ninactive_brightness: 0\n\n# Win+Shift+B to toggle Screen Light on/off.\nhotkey_enabled: true\n"
    );
}

#[test]
fn config_file_text_writes_large_numbers() {
    let c = Config { idle_delay_seconds: u64::MAX, active_brightness: 100, inactive_brightness: 4294967295, hotkey_enabled: false };
    assert_eq!(
        config_file_text(&c),
        "idle_delay_seconds: 18446744073709551615\nactive_brightness: 100\ninactive_brightness: 4294967295\n\n# Win+Shift+B to toggle Screen Light on/off.\nhotkey_enabled: false\n"
    );
    let z = Config { idle_delay_seconds: 0, active_brightness: 10, inactive_brightness: 9, hotkey_enabled: true };
    assert!(config_file_text(&z).starts_with("idle_delay_seconds: 0\nactive_brightness: 10\ninactive_brightness: 9\n"));
}
