use screen_light::config::Config;
use screen_light::controller::{restore_all_monitors, BrightnessCommand, Controller, HotkeyChange};
use screen_light::monitors::{Monitor, Rect};
use std::collections::HashMap;

fn monitor(hmonitor: isize, left: i32) -> Monitor {
    Monitor {
        hmonitor,
        name: format!("\\\\.\\DISPLAY{}", hmonitor),
        bounds: Rect { left, top: 0, right: left + 1920, bottom: 1080 },
    }
}

fn two_monitors() -> Vec<Monitor> {
    vec![monitor(10, 0), monitor(20, 1920)]
}

fn cmd(hmonitor: isize, brightness: u32) -> BrightnessCommand {
    BrightnessCommand { hmonitor, brightness }
}

fn sorted(mut v: Vec<BrightnessCommand>) -> Vec<BrightnessCommand> {
    v.sort_by_key(|c| c.hmonitor);
    v
}

#[test]
fn start_sets_active_brightness_on_cursor_monitor() {
    let (c, cmds) = Controller::start(Config::default(), &two_monitors(), Some((2000, 10)));
    assert_eq!(cmds, vec![cmd(20, 75)]);
    assert_eq!(c.last_active_monitor(), Some(20));
    assert!(c.is_enabled());
}

#[test]
fn start_without_cursor_sends_nothing() {
    let (c, cmds) = Controller::start(Config::default(), &two_monitors(), None);
    assert!(cmds.is_empty());
    assert_eq!(c.last_active_monitor(), None);
}

#[test]
fn inactive_monitor_dims_after_delay() {
    let (mut c, _) = Controller::start(Config::default(), &two_monitors(), Some((10, 10)));
    // First poll: monitor 20 becomes inactive at t = 1000 ms.
    assert!(c.poll(&two_monitors(), Some((10, 10)), 1000).is_empty());
    assert_eq!(c.inactive_since(20), Some(Some(1000)));
    assert_eq!(c.inactive_since(10), Some(None));
    // 999 ms later: not yet.
    assert!(c.poll(&two_monitors(), Some((10, 10)), 1999).is_empty());
    assert!(!c.is_monitor_dimmed(20));
    // One full second later: dimmed to the inactive brightness.
    assert_eq!(c.poll(&two_monitors(), Some((10, 10)), 2000), vec![cmd(20, 0)]);
    assert!(c.is_monitor_dimmed(20));
    // Already dimmed: no second command.
    assert!(c.poll(&two_monitors(), Some((10, 10)), 5000).is_empty());
}

#[test]
fn zero_delay_dims_at_once() {
    let config = Config { idle_delay_seconds: 0, active_brightness: 80, inactive_brightness: 10, hotkey_enabled: false };
    let monitors = vec![monitor(1, 0), monitor(2, 1920), monitor(3, 3840)];
    let (mut c, _) = Controller::start(config, &monitors, Some((2000, 5)));
    let cmds = c.poll(&monitors, Some((2000, 5)), 7);
    assert_eq!(cmds, vec![cmd(1, 10), cmd(3, 10)]);
    assert!(c.is_monitor_dimmed(1) && c.is_monitor_dimmed(3) && !c.is_monitor_dimmed(2));
}

#[test]
fn moving_cursor_restores_dimmed_monitor() {
    let config = Config { idle_delay_seconds: 0, ..Config::default() };
    let (mut c, _) = Controller::start(config, &two_monitors(), Some((10, 10)));
    assert_eq!(c.poll(&two_monitors(), Some((10, 10)), 0), vec![cmd(20, 0)]);
    // The cursor moves to monitor 20: it is restored, and monitor 10 dims.
    let cmds = c.poll(&two_monitors(), Some((2000, 10)), 100);
    assert_eq!(cmds, vec![cmd(20, 75), cmd(10, 0)]);
    assert_eq!(c.last_active_monitor(), Some(20));
    assert!(!c.is_monitor_dimmed(20));
    assert!(c.is_monitor_dimmed(10));
}

#[test]
fn cursor_off_all_monitors_makes_all_inactive() {
    let config = Config { idle_delay_seconds: 0, ..Config::default() };
    let (mut c, _) = Controller::start(config, &two_monitors(), Some((10, 10)));
    let cmds = c.poll(&two_monitors(), Some((-5, -5)), 0);
    assert_eq!(cmds, vec![cmd(10, 0), cmd(20, 0)]);
    assert_eq!(c.last_active_monitor(), None);
}

#[test]
fn disconnected_monitor_is_forgotten() {
    let config = Config { idle_delay_seconds: 0, ..Config::default() };
    let (mut c, _) = Controller::start(config, &two_monitors(), Some((10, 10)));
    c.poll(&two_monitors(), Some((10, 10)), 0);
    assert!(c.is_monitor_dimmed(20));
    let only_first = vec![monitor(10, 0)];
    assert!(c.poll(&only_first, Some((10, 10)), 10).is_empty());
    assert!(!c.is_monitor_dimmed(20));
    assert_eq!(c.inactive_since(20), None);
}

#[test]
fn empty_monitor_list_changes_nothing() {
    let config = Config { idle_delay_seconds: 0, ..Config::default() };
    let (mut c, _) = Controller::start(config, &two_monitors(), Some((10, 10)));
    c.poll(&two_monitors(), Some((10, 10)), 0);
    assert!(c.poll(&Vec::new(), None, 10).is_empty());
    assert!(c.is_monitor_dimmed(20));
    assert_eq!(c.last_active_monitor(), Some(10));
}

#[test]
fn toggle_off_restores_and_clears_then_on_again() {
    let config = Config { idle_delay_seconds: 0, ..Config::default() };
    let (mut c, _) = Controller::start(config, &two_monitors(), Some((10, 10)));
    c.poll(&two_monitors(), Some((10, 10)), 0);
    assert_eq!(c.toggle_enabled(), vec![cmd(20, 75)]);
    assert!(!c.is_enabled());
    assert!(!c.is_monitor_dimmed(20));
    assert_eq!(c.last_active_monitor(), None);
    assert_eq!(c.inactive_since(20), None);
    // While off, polls do nothing.
    assert!(c.poll(&two_monitors(), Some((10, 10)), 5000).is_empty());
    assert!(c.toggle_enabled().is_empty());
    assert!(c.is_enabled());
}

#[test]
fn force_enable_and_disable() {
    let config = Config { idle_delay_seconds: 0, ..Config::default() };
    let (mut c, _) = Controller::start(config, &two_monitors(), Some((10, 10)));
    c.force_enable();
    assert!(c.is_enabled());
    c.poll(&two_monitors(), Some((10, 10)), 0);
    assert_eq!(c.force_disable(), vec![cmd(20, 75)]);
    assert!(!c.is_enabled());
    assert!(c.force_disable().is_empty());
    c.force_enable();
    assert!(c.is_enabled());
}

#[test]
fn reload_applies_new_brightness() {
    let config = Config { idle_delay_seconds: 0, ..Config::default() };
    let (mut c, _) = Controller::start(config, &two_monitors(), Some((10, 10)));
    c.poll(&two_monitors(), Some((10, 10)), 0);
    let new_config = Config { idle_delay_seconds: 3, active_brightness: 90, inactive_brightness: 20, hotkey_enabled: false };
    let out = c.reload(Some(new_config));
    assert_eq!(out.commands, vec![cmd(10, 90), cmd(20, 20)]);
    assert_eq!(out.hotkey, HotkeyChange::Reregister(false));
    assert!(!out.write_default_config);
    assert_eq!(c.config(), new_config);
}

#[test]
fn failed_reload_falls_back_to_defaults() {
    let config = Config { idle_delay_seconds: 9, active_brightness: 50, inactive_brightness: 5, hotkey_enabled: false };
    let (mut c, _) = Controller::start(config, &two_monitors(), Some((10, 10)));
    let out = c.reload(None);
    assert!(out.commands.is_empty());
    assert_eq!(out.hotkey, HotkeyChange::Unchanged);
    assert!(out.write_default_config);
    assert_eq!(c.config(), Config::default());
}

#[test]
fn quit_restores_dimmed_monitors() {
    let config = Config { idle_delay_seconds: 0, ..Config::default() };
    let monitors = vec![monitor(1, 0), monitor(2, 1920), monitor(3, 3840)];
    let (mut c, _) = Controller::start(config, &monitors, Some((10, 10)));
    c.poll(&monitors, Some((10, 10)), 0);
    assert_eq!(sorted(c.quit()), vec![cmd(2, 75), cmd(3, 75)]);
    assert!(!c.is_monitor_dimmed(2));
}

#[test]
fn restore_all_monitors_sends_active_brightness_to_dimmed_only() {
    let mut dimmed: HashMap<isize, bool> = HashMap::new();
    dimmed.insert(1, true);
    dimmed.insert(2, false);
    dimmed.insert(3, true);
    let cmds = sorted(restore_all_monitors(&mut dimmed, 60));
    assert_eq!(cmds, vec![cmd(1, 60), cmd(3, 60)]);
    assert!(dimmed.is_empty());
}
