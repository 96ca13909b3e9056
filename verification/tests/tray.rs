use screen_light::tray::{
    handle_menu_command, handle_tray_message, tray_menu_items, MenuCommand, ID_AUTOSTART, ID_CONFIG, ID_EXIT,
    ID_RELOAD, ID_TOGGLE,
};

fn labels(autostart: bool, enabled: bool) -> Vec<(u32, String)> {
    tray_menu_items(autostart, enabled).into_iter().map(|i| (i.id, i.label)).collect()
}

#[test]
fn menu_reflects_state() {
    assert_eq!(
        labels(true, true),
        vec![
            (1, "✓ Auto-start".to_string()),
            (2, "Disable".to_string()),
            (3, "Config".to_string()),
            (4, "Reload".to_string()),
            (5, "Exit".to_string()),
        ]
    );
    let off = labels(false, false);
    assert_eq!(off[0], (1, "Auto-start".to_string()));
    assert_eq!(off[1], (2, "Enable".to_string()));
}

#[test]
fn clicks_open_the_menu() {
    assert!(handle_tray_message(0x0202));
    assert!(handle_tray_message(0x0205));
    assert!(!handle_tray_message(0x0200));
    assert!(handle_tray_message(0x1_0000_0205));
}

#[test]
fn menu_commands() {
    assert_eq!(handle_menu_command(ID_AUTOSTART), MenuCommand::ToggleAutostart);
    assert_eq!(handle_menu_command(ID_TOGGLE), MenuCommand::ToggleEnabled);
    assert_eq!(handle_menu_command(ID_CONFIG), MenuCommand::OpenConfigFolder);
    assert_eq!(handle_menu_command(ID_RELOAD), MenuCommand::Reload);
    assert_eq!(handle_menu_command(ID_EXIT), MenuCommand::Exit);
    assert_eq!(handle_menu_command(0), MenuCommand::Ignore);
    assert_eq!(handle_menu_command(6), MenuCommand::Ignore);
}
