//! The notification-area icon: its menu and how its messages and commands are read.

use vstd::prelude::*;
use crate::messages::WM_APP;

verus! {

/// The message the tray icon sends to the window.
pub const WM_TRAY: u32 = WM_APP + 1;
pub const ID_AUTOSTART: u32 = 1;
pub const ID_TOGGLE: u32 = 2;
pub const ID_CONFIG: u32 = 3;
pub const ID_RELOAD: u32 = 4;
pub const ID_EXIT: u32 = 5;

/// Mouse messages the tray icon reports in its `lparam`.
pub const WM_LBUTTONUP: u32 = 0x0202;
pub const WM_RBUTTONUP: u32 = 0x0205;

/// The tooltip of the tray icon.
pub const TRAY_TIP: &'static str = "Screen Light";

/// One entry of the tray menu.
pub struct MenuItem {
    pub id: u32,
    pub label: String,
}

/// The tray menu, top to bottom: identifiers and labels. The auto-start entry is ticked
/// when auto-start is on; the toggle entry offers the opposite of the current state.
pub open spec fn menu_entries(autostart_enabled: bool, spotlight_enabled: bool) -> Seq<(u32, Seq<char>)> {
    seq![
        (ID_AUTOSTART, if autostart_enabled { "✓ Auto-start"@ } else { "Auto-start"@ }),
        (ID_TOGGLE, if spotlight_enabled { "Disable"@ } else { "Enable"@ }),
        (ID_CONFIG, "Config"@),
        (ID_RELOAD, "Reload"@),
        (ID_EXIT, "Exit"@),
    ]
}

/// The entries of the tray menu for the current auto-start and on/off state.
pub fn tray_menu_items(autostart_enabled: bool, spotlight_enabled: bool) -> (items: Vec<MenuItem>)
    ensures
        items@.len() == 5,
        forall|i: int| 0 <= i < 5 ==> (#[trigger] items@[i]).id == menu_entries(autostart_enabled, spotlight_enabled)[i].0
            && items@[i].label@ == menu_entries(autostart_enabled, spotlight_enabled)[i].1,
        items@[0].id == 1 && items@[1].id == 2 && items@[2].id == 3 && items@[3].id == 4 && items@[4].id == 5,
        items@[0].label@ == (if autostart_enabled { "✓ Auto-start"@ } else { "Auto-start"@ }),
        items@[1].label@ == (if spotlight_enabled { "Disable"@ } else { "Enable"@ }),
        items@[2].label@ == "Config"@,
        items@[3].label@ == "Reload"@,
        items@[4].label@ == "Exit"@,
{
    let autostart_label = if autostart_enabled { "✓ Auto-start" } else { "Auto-start" };
    let toggle_label = if spotlight_enabled { "Disable" } else { "Enable" };
    let mut items: Vec<MenuItem> = Vec::new();
    items.push(MenuItem { id: ID_AUTOSTART, label: autostart_label.to_string() });
    items.push(MenuItem { id: ID_TOGGLE, label: toggle_label.to_string() });
    items.push(MenuItem { id: ID_CONFIG, label: "Config".to_string() });
    items.push(MenuItem { id: ID_RELOAD, label: "Reload".to_string() });
    items.push(MenuItem { id: ID_EXIT, label: "Exit".to_string() });
    items
}

/// Law: the first entry is ticked exactly when auto-start is on, the second reads
/// "Disable" exactly when dimming is on, and each of these labels depends on its own
/// flag only.
pub proof fn lemma_menu_labels_follow_flags(autostart_enabled: bool, spotlight_enabled: bool, other: bool)
    ensures
        menu_entries(autostart_enabled, spotlight_enabled)[0].0 == 1,
        menu_entries(autostart_enabled, spotlight_enabled)[1].0 == 2,
        (menu_entries(autostart_enabled, spotlight_enabled)[0].1 == "✓ Auto-start"@) == autostart_enabled,
        !autostart_enabled ==> menu_entries(autostart_enabled, spotlight_enabled)[0].1 == "Auto-start"@,
        (menu_entries(autostart_enabled, spotlight_enabled)[1].1 == "Disable"@) == spotlight_enabled,
        !spotlight_enabled ==> menu_entries(autostart_enabled, spotlight_enabled)[1].1 == "Enable"@,
        menu_entries(autostart_enabled, spotlight_enabled)[0] == menu_entries(autostart_enabled, other)[0],
        menu_entries(autostart_enabled, spotlight_enabled)[1] == menu_entries(other, spotlight_enabled)[1],
{
    reveal_strlit("✓ Auto-start");
    reveal_strlit("Auto-start");
    reveal_strlit("Disable");
    reveal_strlit("Enable");
    assert("✓ Auto-start"@[0] != "Auto-start"@[0]);
    assert("Disable"@[0] != "Enable"@[0]);
}

/// The mouse message carried in the `lparam` of a tray message: its low 32 bits.
pub open spec fn tray_mouse_message(lparam: isize) -> u32 {
    lparam as u32
}

/// Whether a tray message opens the menu: a left or right button release on the icon.
pub fn handle_tray_message(lparam: isize) -> (show_menu: bool)
    ensures
        show_menu == (tray_mouse_message(lparam) == WM_RBUTTONUP || tray_mouse_message(lparam) == WM_LBUTTONUP),
{
    let msg = lparam as u32;
    msg == WM_RBUTTONUP || msg == WM_LBUTTONUP
}

/// What a tray menu choice asks for.
#[derive(Clone, Copy, Debug, PartialEq, Eq, Structural)]
pub enum MenuCommand {
    ToggleAutostart,
    ToggleEnabled,
    OpenConfigFolder,
    Reload,
    Exit,
    Ignore,
}

/// The request of the menu entry `id`; identifiers of no entry are ignored.
pub fn handle_menu_command(id: u32) -> (cmd: MenuCommand)
    ensures
        cmd == (if id == ID_AUTOSTART { MenuCommand::ToggleAutostart }
            else if id == ID_TOGGLE { MenuCommand::ToggleEnabled }
            else if id == ID_CONFIG { MenuCommand::OpenConfigFolder }
            else if id == ID_RELOAD { MenuCommand::Reload }
            else if id == ID_EXIT { MenuCommand::Exit }
            else { MenuCommand::Ignore }),
{
    if id == ID_AUTOSTART {
        MenuCommand::ToggleAutostart
    } else if id == ID_TOGGLE {
        MenuCommand::ToggleEnabled
    } else if id == ID_CONFIG {
        MenuCommand::OpenConfigFolder
    } else if id == ID_RELOAD {
        MenuCommand::Reload
    } else if id == ID_EXIT {
        MenuCommand::Exit
    } else {
        MenuCommand::Ignore
    }
}

} // verus!
