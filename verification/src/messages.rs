//! Window messages and command-line flags: how the running instance is told what to do.

use vstd::prelude::*;
use crate::tray::WM_TRAY;

verus! {

/// First message number free for applications.
pub const WM_APP: u32 = 0x8000;
pub const WM_DESTROY: u32 = 0x0002;
pub const WM_ENDSESSION: u32 = 0x0016;
pub const WM_COMMAND: u32 = 0x0111;
pub const WM_HOTKEY: u32 = 0x0312;

/// Messages that a command-line instance posts to the running instance.
pub const WM_IPC_TOGGLE: u32 = WM_APP + 10;
pub const WM_IPC_ENABLE: u32 = WM_APP + 11;
pub const WM_IPC_DISABLE: u32 = WM_APP + 12;
pub const WM_IPC_RELOAD: u32 = WM_APP + 13;
pub const WM_IPC_EXIT: u32 = WM_APP + 14;

/// The window class of the running instance's message window.
pub const WINDOW_CLASS: &'static str = "screen-light-window";

/// Minimum time between two accepted hotkey presses, in milliseconds.
pub const HOTKEY_DEBOUNCE_MS: u64 = 500;

/// What a start of the program does, given its command line.
#[derive(Clone, Copy, Debug, PartialEq, Eq, Structural)]
pub enum CliAction {
    /// No flag: run the dimmer.
    Run,
    /// Post this message to the running instance, then exit.
    Send(u32),
    /// An unknown flag: exit without doing anything.
    Exit,
}

/// The message a command-line flag stands for.
pub open spec fn flag_message(flag: Seq<char>) -> Option<u32> {
    if flag == "--toggle"@ { Some(WM_IPC_TOGGLE) }
    else if flag == "--enable"@ { Some(WM_IPC_ENABLE) }
    else if flag == "--disable"@ { Some(WM_IPC_DISABLE) }
    else if flag == "--reload"@ { Some(WM_IPC_RELOAD) }
    else if flag == "--exit"@ { Some(WM_IPC_EXIT) }
    else { None }
}

/// Reads the command line (`args[0]` is the program): without arguments the dimmer runs;
/// with one, only the first argument counts, and a known flag is passed on to the running
/// instance while anything else does nothing.
pub fn cli_action(args: &Vec<String>) -> (action: CliAction)
    ensures
        args.len() <= 1 ==> action == CliAction::Run,
        args.len() > 1 ==> action == match flag_message(args@[1]@) {
            Some(msg) => CliAction::Send(msg),
            None => CliAction::Exit,
        },
        args.len() > 1 && args@[1]@ == "--toggle"@ ==> action == CliAction::Send(WM_IPC_TOGGLE),
        args.len() > 1 && args@[1]@ == "--enable"@ ==> action == CliAction::Send(WM_IPC_ENABLE),
        args.len() > 1 && args@[1]@ == "--disable"@ ==> action == CliAction::Send(WM_IPC_DISABLE),
        args.len() > 1 && args@[1]@ == "--reload"@ ==> action == CliAction::Send(WM_IPC_RELOAD),
        args.len() > 1 && args@[1]@ == "--exit"@ ==> action == CliAction::Send(WM_IPC_EXIT),
        args.len() > 1 && args@[1]@ != "--toggle"@ && args@[1]@ != "--enable"@ && args@[1]@ != "--disable"@
            && args@[1]@ != "--reload"@ && args@[1]@ != "--exit"@ ==> action == CliAction::Exit,
{
    proof {
        reveal_strlit("--toggle");
        reveal_strlit("--enable");
        reveal_strlit("--disable");
        reveal_strlit("--reload");
        reveal_strlit("--exit");
        let flags = seq!["--toggle"@, "--enable"@, "--disable"@, "--reload"@, "--exit"@];
        assert forall|i: int, j: int| 0 <= i < j < 5 implies flags[i] != flags[j] by {
            assert(flags[i][3] != flags[j][3]);
        }
        assert(flags[0] != flags[1] && flags[0] != flags[2] && flags[0] != flags[3] && flags[0] != flags[4]);
        assert(flags[1] != flags[2] && flags[1] != flags[3] && flags[1] != flags[4]);
        assert(flags[2] != flags[3] && flags[2] != flags[4] && flags[3] != flags[4]);
    }
    if args.len() <= 1 {
        return CliAction::Run;
    }
    let flag = &args[1];
    if *flag == "--toggle".to_string() {
        CliAction::Send(WM_IPC_TOGGLE)
    } else if *flag == "--enable".to_string() {
        CliAction::Send(WM_IPC_ENABLE)
    } else if *flag == "--disable".to_string() {
        CliAction::Send(WM_IPC_DISABLE)
    } else if *flag == "--reload".to_string() {
        CliAction::Send(WM_IPC_RELOAD)
    } else if *flag == "--exit".to_string() {
        CliAction::Send(WM_IPC_EXIT)
    } else {
        CliAction::Exit
    }
}

/// What the message window does with a message.
#[derive(Clone, Copy, Debug, PartialEq, Eq, Structural)]
pub enum WindowEvent {
    /// A tray icon message: maybe show the menu.
    Tray,
    /// Request the on/off toggle.
    Toggle,
    /// Request switching on.
    Enable,
    /// Request switching off.
    Disable,
    /// Request a configuration reload.
    Reload,
    /// Quit the message loop.
    Quit,
    /// The global hotkey: toggle, unless pressed too soon after the last press.
    Hotkey,
    /// A menu choice.
    Command,
    /// Any other message: default processing.
    Default,
}

/// How the message window reads a message.
pub open spec fn window_event(msg: u32) -> WindowEvent {
    if msg == WM_TRAY { WindowEvent::Tray }
    else if msg == WM_IPC_TOGGLE { WindowEvent::Toggle }
    else if msg == WM_IPC_ENABLE { WindowEvent::Enable }
    else if msg == WM_IPC_DISABLE { WindowEvent::Disable }
    else if msg == WM_IPC_RELOAD { WindowEvent::Reload }
    else if msg == WM_IPC_EXIT { WindowEvent::Quit }
    else if msg == WM_HOTKEY { WindowEvent::Hotkey }
    else if msg == WM_COMMAND { WindowEvent::Command }
    else if msg == WM_ENDSESSION || msg == WM_DESTROY { WindowEvent::Quit }
    else { WindowEvent::Default }
}

/// The messages the message window handles itself; all others go to default processing.
pub open spec fn handled_message(msg: u32) -> bool {
    ||| msg == WM_TRAY
    ||| msg == WM_IPC_TOGGLE
    ||| msg == WM_IPC_ENABLE
    ||| msg == WM_IPC_DISABLE
    ||| msg == WM_IPC_RELOAD
    ||| msg == WM_IPC_EXIT
    ||| msg == WM_HOTKEY
    ||| msg == WM_COMMAND
    ||| msg == WM_ENDSESSION
    ||| msg == WM_DESTROY
}

/// Law: the window quits exactly on the exit request, the end of the session and its
/// destruction; every message it does not handle itself gets default processing; each
/// request message is read as its own request.
pub proof fn lemma_window_event_meaning(msg: u32)
    ensures
        (window_event(msg) == WindowEvent::Quit) == (msg == WM_IPC_EXIT || msg == WM_ENDSESSION || msg == WM_DESTROY),
        !handled_message(msg) ==> window_event(msg) == WindowEvent::Default,
        (window_event(msg) == WindowEvent::Default) == !handled_message(msg),
        (window_event(msg) == WindowEvent::Tray) == (msg == WM_TRAY),
        (window_event(msg) == WindowEvent::Toggle) == (msg == WM_IPC_TOGGLE),
        (window_event(msg) == WindowEvent::Enable) == (msg == WM_IPC_ENABLE),
        (window_event(msg) == WindowEvent::Disable) == (msg == WM_IPC_DISABLE),
        (window_event(msg) == WindowEvent::Reload) == (msg == WM_IPC_RELOAD),
        (window_event(msg) == WindowEvent::Hotkey) == (msg == WM_HOTKEY),
        (window_event(msg) == WindowEvent::Command) == (msg == WM_COMMAND),
{
}

/// Classifies a window message.
pub fn classify_window_message(msg: u32) -> (event: WindowEvent)
    ensures
        event == window_event(msg),
        (event == WindowEvent::Quit) == (msg == WM_IPC_EXIT || msg == WM_ENDSESSION || msg == WM_DESTROY),
        msg == WM_TRAY ==> event == WindowEvent::Tray,
        msg == WM_IPC_TOGGLE ==> event == WindowEvent::Toggle,
        msg == WM_IPC_ENABLE ==> event == WindowEvent::Enable,
        msg == WM_IPC_DISABLE ==> event == WindowEvent::Disable,
        msg == WM_IPC_RELOAD ==> event == WindowEvent::Reload,
        msg == WM_HOTKEY ==> event == WindowEvent::Hotkey,
        msg == WM_COMMAND ==> event == WindowEvent::Command,
        !handled_message(msg) ==> event == WindowEvent::Default,
{
    if msg == WM_TRAY {
        WindowEvent::Tray
    } else if msg == WM_IPC_TOGGLE {
        WindowEvent::Toggle
    } else if msg == WM_IPC_ENABLE {
        WindowEvent::Enable
    } else if msg == WM_IPC_DISABLE {
        WindowEvent::Disable
    } else if msg == WM_IPC_RELOAD {
        WindowEvent::Reload
    } else if msg == WM_IPC_EXIT {
        WindowEvent::Quit
    } else if msg == WM_HOTKEY {
        WindowEvent::Hotkey
    } else if msg == WM_COMMAND {
        WindowEvent::Command
    } else if msg == WM_ENDSESSION || msg == WM_DESTROY {
        WindowEvent::Quit
    } else {
        WindowEvent::Default
    }
}

/// Whether a hotkey press at `now_ms` toggles, the last accepted press having been at
/// `last_ms`: at least [`HOTKEY_DEBOUNCE_MS`] must lie between them (a clock that went
/// back counts as no time).
pub fn accept_hotkey(now_ms: u64, last_ms: u64) -> (accept: bool)
    ensures
        accept == (now_ms >= last_ms && now_ms - last_ms >= HOTKEY_DEBOUNCE_MS),
{
    let elapsed: u64 = if now_ms >= last_ms { now_ms - last_ms } else { 0 };
    elapsed >= HOTKEY_DEBOUNCE_MS
}

/// The menu identifier in a command message's `wparam`: its low 16 bits.
pub fn command_id(wparam: usize) -> (id: u32)
    ensures
        id == wparam % 0x1_0000,
{
    let low = wparam & 0xFFFF;
    assert(wparam & 0xFFFF == wparam % 0x1_0000) by (bit_vector);
    low as u32
}

} // verus!
