use screen_light::messages::{
    accept_hotkey, classify_window_message, cli_action, command_id, CliAction, WindowEvent, WM_APP, WM_COMMAND,
    WM_DESTROY, WM_ENDSESSION, WM_HOTKEY, WM_IPC_DISABLE, WM_IPC_ENABLE, WM_IPC_EXIT, WM_IPC_RELOAD, WM_IPC_TOGGLE,
};
use screen_light::tray::WM_TRAY;

fn args(list: &[&str]) -> Vec<String> {
    list.iter().map(|s| s.to_string()).collect()
}

#[test]
fn cli_flags_map_to_messages() {
    assert_eq!(cli_action(&args(&["screen-light.exe"])), CliAction::Run);
    assert_eq!(cli_action(&args(&[])), CliAction::Run);
    assert_eq!(cli_action(&args(&["x", "--toggle"])), CliAction::Send(WM_APP + 10));
    assert_eq!(cli_action(&args(&["x", "--enable"])), CliAction::Send(WM_IPC_ENABLE));
    assert_eq!(cli_action(&args(&["x", "--disable"])), CliAction::Send(WM_IPC_DISABLE));
    assert_eq!(cli_action(&args(&["x", "--reload"])), CliAction::Send(WM_IPC_RELOAD));
    assert_eq!(cli_action(&args(&["x", "--exit", "--toggle"])), CliAction::Send(WM_IPC_EXIT));
    assert_eq!(cli_action(&args(&["x", "--help"])), CliAction::Exit);
    assert_eq!(cli_action(&args(&["x", "toggle"])), CliAction::Exit);
}

#[test]
fn window_messages_are_classified() {
    assert_eq!(WM_TRAY, 0x8001);
    assert_eq!(classify_window_message(WM_TRAY), WindowEvent::Tray);
    assert_eq!(classify_window_message(WM_IPC_TOGGLE), WindowEvent::Toggle);
    assert_eq!(classify_window_message(WM_IPC_ENABLE), WindowEvent::Enable);
    assert_eq!(classify_window_message(WM_IPC_DISABLE), WindowEvent::Disable);
    assert_eq!(classify_window_message(WM_IPC_RELOAD), WindowEvent::Reload);
    assert_eq!(classify_window_message(WM_IPC_EXIT), WindowEvent::Quit);
    assert_eq!(classify_window_message(WM_HOTKEY), WindowEvent::Hotkey);
    assert_eq!(classify_window_message(WM_COMMAND), WindowEvent::Command);
    assert_eq!(classify_window_message(WM_ENDSESSION), WindowEvent::Quit);
    assert_eq!(classify_window_message(WM_DESTROY), WindowEvent::Quit);
    assert_eq!(classify_window_message(0x0200), WindowEvent::Default);
}

#[test]
fn hotkey_is_debounced() {
    assert!(accept_hotkey(1000, 0));
    assert!(accept_hotkey(500, 0));
    assert!(!accept_hotkey(499, 0));
    assert!(!accept_hotkey(1200, 1000));
    assert!(accept_hotkey(1500, 1000));
    assert!(!accept_hotkey(100, 1000));
}

#[test]
fn command_id_is_low_word() {
    assert_eq!(command_id(0x0001_0003), 3);
    assert_eq!(command_id(0xFFFF), 0xFFFF);
    assert_eq!(command_id(5), 5);
}
