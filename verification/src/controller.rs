//! The dimming controller: the state the main loop keeps between polls and the
//! decisions taken on each event, returned as brightness commands for the caller to send.

use vstd::prelude::*;
use std::collections::HashMap;
use std::collections::HashSet;
use vstd::std_specs::iter::IteratorSpec;
use crate::config::{Config, default_config};
use crate::monitors::{Monitor, cursor_monitor_index, get_cursor_monitor_index};

verus! {

broadcast use vstd::std_specs::hash::group_hash_axioms;

/// One brightness change to send to a monitor.
#[derive(Clone, Copy, Debug, PartialEq, Eq, Structural)]
pub struct BrightnessCommand {
    pub hmonitor: isize,
    pub brightness: u32,
}

/// The command that sets `hmonitor` to `brightness`.
pub open spec fn command(hmonitor: isize, brightness: u32) -> BrightnessCommand {
    BrightnessCommand { hmonitor, brightness }
}

/// `cmds` sets every monitor that `dimmed` marks as dimmed, and no other, to `brightness`,
/// each exactly once, in some order.
pub open spec fn restores_exactly(cmds: Seq<BrightnessCommand>, dimmed: Map<isize, bool>, brightness: u32) -> bool {
    &&& forall|i: int| 0 <= i < cmds.len() ==> {
        &&& (#[trigger] cmds[i]).brightness == brightness
        &&& dimmed.contains_key(cmds[i].hmonitor)
        &&& dimmed[cmds[i].hmonitor]
    }
    &&& forall|hm: isize| dimmed.contains_key(hm) && dimmed[hm] ==>
        exists|i: int| 0 <= i < cmds.len() && (#[trigger] cmds[i]).hmonitor == hm
    &&& forall|i: int, j: int| 0 <= i < j < cmds.len() ==> (#[trigger] cmds[i]).hmonitor != (#[trigger] cmds[j]).hmonitor
}

/// One command per monitor that `dimmed` marks as dimmed, setting it to `brightness`.
/// The commands come in the map's iteration order, which is left open.
fn commands_for_dimmed(dimmed: &HashMap<isize, bool>, brightness: u32) -> (cmds: Vec<BrightnessCommand>)
    ensures
        restores_exactly(cmds@, dimmed@, brightness),
{
    let active_brightness = brightness;
    let mut cmds: Vec<BrightnessCommand> = Vec::new();
    let ghost m = dimmed@;
    for (hm, is_dimmed) in it: dimmed.iter()
        invariant
            m == dimmed@,
            it.seq() == vstd::std_specs::hash::spec_hash_map_iter(dimmed).remaining(),
            it.seq().no_duplicates(),
            forall|i: int| 0 <= i < cmds.len() ==> {
                &&& (#[trigger] cmds@[i]).brightness == active_brightness
                &&& m.contains_key(cmds@[i].hmonitor)
                &&& m[cmds@[i].hmonitor]
            },
            forall|i: int, j: int| 0 <= i < cmds.len() && it.index() <= j < it.seq().len() ==>
                (#[trigger] cmds@[i]).hmonitor != *(#[trigger] it.seq()[j]).0,
            forall|i: int, j: int| 0 <= i < j < cmds.len() ==> (#[trigger] cmds@[i]).hmonitor != (#[trigger] cmds@[j]).hmonitor,
            forall|j: int| 0 <= j < it.index() && *(#[trigger] it.seq()[j]).1 ==>
                exists|i: int| 0 <= i < cmds.len() && #[trigger] cmds@[i].hmonitor == *it.seq()[j].0,
    {
        proof {
            assert(it.seq()[it.index()] == (hm, is_dimmed));
            assert(m.contains_key(*hm) && m[*hm] == *is_dimmed);
        }
        let ghost old_cmds = cmds@;
        if *is_dimmed {
            proof {
                assert forall|i: int| 0 <= i < old_cmds.len() implies old_cmds[i].hmonitor != *hm by {
                    assert(old_cmds[i] == cmds@[i]);
                    assert(it.seq()[it.index() as int].0 == hm);
                }
            }
            cmds.push(BrightnessCommand { hmonitor: *hm, brightness: active_brightness });
        }
        proof {
            assert forall|i: int, j: int| 0 <= i < cmds.len() && it.index() + 1 <= j < it.seq().len() implies
                (#[trigger] cmds@[i]).hmonitor != *(#[trigger] it.seq()[j]).0 by {
                if i < old_cmds.len() {
                    assert(cmds@[i] == old_cmds[i]);
                } else {
                    let k = it.index() as int;
                    assert(cmds@[i].hmonitor == *it.seq()[k].0);
                    if *it.seq()[j].0 == *it.seq()[k].0 {
                        assert(m[*it.seq()[j].0] == *it.seq()[j].1);
                        assert(m[*it.seq()[k].0] == *it.seq()[k].1);
                        assert(it.seq()[j] == it.seq()[k]);
                    }
                }
            }
            assert forall|j: int| 0 <= j < it.index() + 1 && *(#[trigger] it.seq()[j]).1 implies
                exists|i: int| 0 <= i < cmds.len() && #[trigger] cmds@[i].hmonitor == *it.seq()[j].0 by {
                if j < it.index() {
                    let i = choose|i: int| 0 <= i < old_cmds.len() && #[trigger] old_cmds[i].hmonitor == *it.seq()[j].0;
                    assert(cmds@[i] == old_cmds[i]);
                } else {
                    assert(cmds@[cmds.len() - 1].hmonitor == *hm);
                }
            }
        }
    }
    proof {
        assert forall|hm: isize| m.contains_key(hm) && m[hm] implies
            exists|i: int| 0 <= i < cmds.len() && (#[trigger] cmds@[i]).hmonitor == hm by {
            let s = vstd::std_specs::hash::spec_hash_map_iter(dimmed).remaining();
            assert(s.contains((&hm, &m[hm])));
            let j = choose|j: int| 0 <= j < s.len() && s[j] == (&hm, &m[hm]);
            assert(*s[j].1);
            let i = choose|i: int| 0 <= i < cmds.len() && #[trigger] cmds@[i].hmonitor == *s[j].0;
            assert(cmds@[i].hmonitor == hm);
        }
    }
    cmds
}

/// Sends every dimmed monitor back to `active_brightness` and forgets all dimming.
/// The commands come in the map's iteration order, which is left open.
pub fn restore_all_monitors(dimmed: &mut HashMap<isize, bool>, active_brightness: u32) -> (cmds: Vec<BrightnessCommand>)
    ensures
        final(dimmed)@ == Map::<isize, bool>::empty(),
        restores_exactly(cmds@, old(dimmed)@, active_brightness),
{
    let cmds = commands_for_dimmed(dimmed, active_brightness);
    dimmed.clear();
    cmds
}

/// Whether `dimmed` marks `hm` as dimmed; a monitor it does not know is not dimmed.
pub open spec fn is_dimmed(dimmed: Map<isize, bool>, hm: isize) -> bool {
    dimmed.contains_key(hm) && dimmed[hm]
}

fn dimmed_flag(dimmed: &HashMap<isize, bool>, hm: isize) -> (res: bool)
    ensures
        res == is_dimmed(dimmed@, hm),
{
    match dimmed.get(&hm) {
        Some(b) => *b,
        None => false,
    }
}

/// The handles of the monitors, in order.
pub open spec fn handles(monitors: Seq<Monitor>) -> Seq<isize> {
    monitors.map_values(|m: Monitor| m.hmonitor)
}

/// The handle of the monitor under the cursor, if any.
pub open spec fn active_handle(monitors: Seq<Monitor>, cursor: Option<(i32, i32)>) -> Option<isize> {
    match cursor_monitor_index(monitors, cursor) {
        Some(i) => Some(monitors[i].hmonitor),
        None => None,
    }
}

fn handle_set(monitors: &Vec<Monitor>) -> (set: HashSet<isize>)
    ensures
        set@ == handles(monitors@).to_set(),
{
    let mut set: HashSet<isize> = HashSet::new();
    for i in 0..monitors.len()
        invariant
            set@ == handles(monitors@).take(i as int).to_set(),
    {
        proof {
            assert(handles(monitors@).take(i + 1) == handles(monitors@).take(i as int).push(monitors@[i as int].hmonitor));
            handles(monitors@).take(i as int).lemma_push_to_set_commute(monitors@[i as int].hmonitor);
        }
        set.insert(monitors[i].hmonitor);
    }
    proof {
        assert(handles(monitors@).take(monitors.len() as int) == handles(monitors@));
    }
    set
}

fn restrict_keys<V: Copy>(m: &HashMap<isize, V>, keys: &HashSet<isize>) -> (r: HashMap<isize, V>)
    ensures
        r@ == m@.restrict(keys@),
{
    let mut r: HashMap<isize, V> = HashMap::new();
    let ghost mm = m@;
    for (k, v) in it: m.iter()
        invariant
            mm == m@,
            it.seq() == vstd::std_specs::hash::spec_hash_map_iter(m).remaining(),
            forall|k: isize| #[trigger] r@.contains_key(k) ==> keys@.contains(k) && mm.contains_key(k) && r@[k] == mm[k],
            forall|j: int| 0 <= j < it.index() && keys@.contains(*(#[trigger] it.seq()[j]).0) ==> r@.contains_key(*it.seq()[j].0),
    {
        proof {
            assert(it.seq()[it.index()] == (k, v));
            assert(mm.contains_key(*k) && mm[*k] == *v);
        }
        if keys.contains(k) {
            r.insert(*k, *v);
        }
    }
    proof {
        assert forall|k: isize| #[trigger] mm.restrict(keys@).contains_key(k) implies r@.contains_key(k) by {
            let s = vstd::std_specs::hash::spec_hash_map_iter(m).remaining();
            assert(s.contains((&k, &mm[k])));
            let j = choose|j: int| 0 <= j < s.len() && s[j] == (&k, &mm[k]);
            assert(*s[j].0 == k);
        }
        assert(r@ =~= mm.restrict(keys@));
    }
    r
}

/// What the controller knows between events.
pub struct ControllerView {
    pub config: Config,
    pub enabled: bool,
    /// The monitor the cursor was on at the last poll.
    pub last_active_monitor: Option<isize>,
    /// For each known monitor, when (in milliseconds) the cursor left it; `None` while it is active.
    pub inactive_since: Map<isize, Option<u64>>,
    /// For each known monitor, whether it has been set to the inactive brightness.
    pub dimmed: Map<isize, bool>,
}

impl ControllerView {
    /// The controller's invariant: while disabled it holds no per-monitor state, and the
    /// monitor it last saw as active is never dimmed.
    pub open spec fn wf(self) -> bool {
        &&& !self.enabled ==> {
            &&& self.dimmed == Map::<isize, bool>::empty()
            &&& self.inactive_since == Map::<isize, Option<u64>>::empty()
            &&& self.last_active_monitor is None
        }
        &&& self.last_active_monitor matches Some(hm) ==> !is_dimmed(self.dimmed, hm)
        &&& self.last_active_monitor matches Some(hm) ==> !has_inactive_start(self.inactive_since, hm)
    }
}

/// Whether `inactive_since` records a time at which the cursor left `hm`.
pub open spec fn has_inactive_start(inactive_since: Map<isize, Option<u64>>, hm: isize) -> bool {
    inactive_since.contains_key(hm) && inactive_since[hm] is Some
}

/// Per-monitor state and commands while a poll walks the monitor list.
pub struct PollState {
    pub inactive_since: Map<isize, Option<u64>>,
    pub dimmed: Map<isize, bool>,
    pub commands: Seq<BrightnessCommand>,
}

/// Whether a monitor inactive since `since` has been so for at least `delay_seconds`
/// at time `now` (both in milliseconds); a start in the future counts as no time at all.
pub open spec fn idle_long_enough(since: u64, now: u64, delay_seconds: u64) -> bool {
    (if now >= since { now - since } else { 0 }) >= delay_seconds * 1000
}

/// When `hm` became inactive: the recorded time, or `now` when none is recorded.
pub open spec fn inactive_start(inactive_since: Map<isize, Option<u64>>, hm: isize, now: u64) -> u64 {
    if inactive_since.contains_key(hm) && inactive_since[hm] is Some {
        inactive_since[hm]->0
    } else {
        now
    }
}

/// One monitor of a poll: the active monitor is marked active; any other one is marked
/// inactive (from now, unless already so) and dimmed once it has been inactive long enough.
pub open spec fn visit_monitor(st: PollState, hm: isize, active: Option<isize>, now: u64, config: Config) -> PollState {
    if active == Some(hm) {
        PollState { inactive_since: st.inactive_since.insert(hm, None), dimmed: st.dimmed, commands: st.commands }
    } else {
        let since = inactive_start(st.inactive_since, hm, now);
        let inactive_since = st.inactive_since.insert(hm, Some(since));
        if idle_long_enough(since, now, config.idle_delay_seconds) && !is_dimmed(st.dimmed, hm) {
            PollState {
                inactive_since,
                dimmed: st.dimmed.insert(hm, true),
                commands: st.commands.push(command(hm, config.inactive_brightness)),
            }
        } else {
            PollState { inactive_since, dimmed: st.dimmed, commands: st.commands }
        }
    }
}

/// The monitors of a poll, visited in order.
pub open spec fn visit_monitors(st: PollState, hms: Seq<isize>, active: Option<isize>, now: u64, config: Config) -> PollState
    decreases hms.len(),
{
    if hms.len() == 0 {
        st
    } else {
        visit_monitor(visit_monitors(st, hms.drop_last(), active, now, config), hms.last(), active, now, config)
    }
}

/// The start of a poll: when the cursor has moved to another monitor, that monitor is
/// restored if it was dimmed and no longer counts as inactive.
pub open spec fn switch_active(v: ControllerView, active: Option<isize>) -> PollState {
    match active {
        Some(hm) => if active != v.last_active_monitor {
            if is_dimmed(v.dimmed, hm) {
                PollState {
                    inactive_since: v.inactive_since.remove(hm),
                    dimmed: v.dimmed.insert(hm, false),
                    commands: seq![command(hm, v.config.active_brightness)],
                }
            } else {
                PollState { inactive_since: v.inactive_since.remove(hm), dimmed: v.dimmed, commands: seq![] }
            }
        } else {
            PollState { inactive_since: v.inactive_since, dimmed: v.dimmed, commands: seq![] }
        },
        None => PollState { inactive_since: v.inactive_since, dimmed: v.dimmed, commands: seq![] },
    }
}

/// The state and commands after a poll, before monitors that are gone are forgotten.
pub open spec fn poll_visit(v: ControllerView, monitors: Seq<Monitor>, cursor: Option<(i32, i32)>, now: u64) -> PollState {
    let active = active_handle(monitors, cursor);
    visit_monitors(switch_active(v, active), handles(monitors), active, now, v.config)
}

/// What a poll does: nothing while disabled or when no monitor is found; otherwise it
/// restores the monitor the cursor moved to, dims the monitors inactive for long enough,
/// and forgets monitors that are no longer connected.
pub open spec fn poll_result(v: ControllerView, monitors: Seq<Monitor>, cursor: Option<(i32, i32)>, now: u64) -> (ControllerView, Seq<BrightnessCommand>) {
    if monitors.len() == 0 || !v.enabled {
        (v, seq![])
    } else {
        let st = poll_visit(v, monitors, cursor, now);
        let keep = handles(monitors).to_set();
        (ControllerView {
            config: v.config,
            enabled: v.enabled,
            last_active_monitor: active_handle(monitors, cursor),
            inactive_since: st.inactive_since.restrict(keep),
            dimmed: st.dimmed.restrict(keep),
        }, st.commands)
    }
}

/// The dimming controller of the main loop.
pub struct Controller {
    config: Config,
    enabled: bool,
    last_active_monitor: Option<isize>,
    inactive_since: HashMap<isize, Option<u64>>,
    dimmed: HashMap<isize, bool>,
}

impl View for Controller {
    type V = ControllerView;

    closed spec fn view(&self) -> ControllerView {
        ControllerView {
            config: self.config,
            enabled: self.enabled,
            last_active_monitor: self.last_active_monitor,
            inactive_since: self.inactive_since@,
            dimmed: self.dimmed@,
        }
    }
}

/// How the global hotkey registration changes after a configuration reload.
#[derive(Clone, Copy, Debug, PartialEq, Eq, Structural)]
pub enum HotkeyChange {
    /// Leave the registration as it is.
    Unchanged,
    /// Unregister the hotkey, then register it again if the flag is set.
    Reregister(bool),
}

/// What the caller does after a configuration reload.
pub struct ReloadOutcome {
    /// Brightness changes to send, in order.
    pub commands: Vec<BrightnessCommand>,
    pub hotkey: HotkeyChange,
    /// Whether to write the default configuration file.
    pub write_default_config: bool,
}

/// The state after switching off: nothing dimmed, nothing tracked, no active monitor.
pub open spec fn disabled_view(config: Config) -> ControllerView {
    ControllerView {
        config,
        enabled: false,
        last_active_monitor: None,
        inactive_since: Map::empty(),
        dimmed: Map::empty(),
    }
}

impl Controller {
    /// Starts the controller with `config`, switched on, and gives the monitor under the
    /// cursor its active brightness.
    pub fn start(config: Config, monitors: &Vec<Monitor>, cursor: Option<(i32, i32)>) -> (res: (Controller, Vec<BrightnessCommand>))
        ensures
            res.0@.wf(),
            res.0@ == (ControllerView {
                config,
                enabled: true,
                last_active_monitor: active_handle(monitors@, cursor),
                inactive_since: Map::empty(),
                dimmed: Map::empty(),
            }),
            res.1@ == match active_handle(monitors@, cursor) {
                Some(hm) => seq![command(hm, config.active_brightness)],
                None => Seq::<BrightnessCommand>::empty(),
            },
    {
        let mut cmds: Vec<BrightnessCommand> = Vec::new();
        let mut last_active_monitor: Option<isize> = None;
        if let Some(i) = get_cursor_monitor_index(monitors.as_slice(), cursor) {
            let hm = monitors[i].hmonitor;
            cmds.push(BrightnessCommand { hmonitor: hm, brightness: config.active_brightness });
            last_active_monitor = Some(hm);
        }
        let c = Controller {
            config,
            enabled: true,
            last_active_monitor,
            inactive_since: HashMap::new(),
            dimmed: HashMap::new(),
        };
        (c, cmds)
    }

    pub fn config(&self) -> (c: Config)
        ensures
            c == self@.config,
    {
        self.config
    }

    pub fn is_enabled(&self) -> (b: bool)
        ensures
            b == self@.enabled,
    {
        self.enabled
    }

    pub fn last_active_monitor(&self) -> (hm: Option<isize>)
        ensures
            hm == self@.last_active_monitor,
    {
        self.last_active_monitor
    }

    /// Whether `hm` is currently set to the inactive brightness.
    pub fn is_monitor_dimmed(&self, hm: isize) -> (b: bool)
        ensures
            b == is_dimmed(self@.dimmed, hm),
    {
        dimmed_flag(&self.dimmed, hm)
    }

    /// Since when (milliseconds) `hm` has been inactive: `Some(None)` while it is the
    /// active monitor, `None` when the controller does not track it.
    pub fn inactive_since(&self, hm: isize) -> (t: Option<Option<u64>>)
        ensures
            t == (if self@.inactive_since.contains_key(hm) { Some(self@.inactive_since[hm]) } else { None }),
    {
        match self.inactive_since.get(&hm) {
            Some(t) => Some(*t),
            None => None,
        }
    }

    /// Before exiting: every dimmed monitor goes back to the active brightness.
    pub fn quit(&mut self) -> (cmds: Vec<BrightnessCommand>)
        requires
            old(self)@.wf(),
        ensures
            final(self)@.wf(),
            final(self)@ == (ControllerView { dimmed: Map::empty(), ..old(self)@ }),
            restores_exactly(cmds@, old(self)@.dimmed, old(self)@.config.active_brightness),
    {
        restore_all_monitors(&mut self.dimmed, self.config.active_brightness)
    }

    /// A configuration reload: `loaded` is the configuration read from the file, or `None`
    /// when it could not be read or parsed. A new configuration takes effect at once: the
    /// active monitor gets the new active brightness and the dimmed ones the new inactive
    /// brightness, and the hotkey is registered again as the new configuration says. When
    /// loading failed the defaults are used and the default file is written again.
    pub fn reload(&mut self, loaded: Option<Config>) -> (out: ReloadOutcome)
        requires
            old(self)@.wf(),
        ensures
            final(self)@.wf(),
            match loaded {
                Some(new_config) => {
                    let prefix = match old(self)@.last_active_monitor {
                        Some(hm) => seq![command(hm, new_config.active_brightness)],
                        None => Seq::<BrightnessCommand>::empty(),
                    };
                    &&& final(self)@ == (ControllerView { config: new_config, ..old(self)@ })
                    &&& out.hotkey == HotkeyChange::Reregister(new_config.hotkey_enabled)
                    &&& !out.write_default_config
                    &&& out.commands@.len() >= prefix.len()
                    &&& out.commands@.take(prefix.len() as int) == prefix
                    &&& restores_exactly(out.commands@.skip(prefix.len() as int), old(self)@.dimmed, new_config.inactive_brightness)
                },
                None => {
                    &&& final(self)@ == (ControllerView { config: default_config(), ..old(self)@ })
                    &&& out.hotkey == HotkeyChange::Unchanged
                    &&& out.write_default_config
                    &&& out.commands@.len() == 0
                },
            },
    {
        match loaded {
            Some(new_config) => {
                self.config = new_config;
                let mut commands: Vec<BrightnessCommand> = Vec::new();
                if let Some(hm) = self.last_active_monitor {
                    commands.push(BrightnessCommand { hmonitor: hm, brightness: new_config.active_brightness });
                }
                let ghost prefix = commands@;
                let mut rest = commands_for_dimmed(&self.dimmed, new_config.inactive_brightness);
                let ghost rest_view = rest@;
                commands.append(&mut rest);
                proof {
                    assert(commands@.take(prefix.len() as int) =~= prefix);
                    assert(commands@.skip(prefix.len() as int) =~= rest_view);
                }
                ReloadOutcome { commands, hotkey: HotkeyChange::Reregister(new_config.hotkey_enabled), write_default_config: false }
            },
            None => {
                self.config = Config::default();
                ReloadOutcome { commands: Vec::new(), hotkey: HotkeyChange::Unchanged, write_default_config: true }
            },
        }
    }

    /// Switches off: restores every dimmed monitor and forgets all per-monitor state.
    fn switch_off(&mut self) -> (cmds: Vec<BrightnessCommand>)
        ensures
            final(self)@ == disabled_view(old(self)@.config),
            restores_exactly(cmds@, old(self)@.dimmed, old(self)@.config.active_brightness),
    {
        let cmds = restore_all_monitors(&mut self.dimmed, self.config.active_brightness);
        self.inactive_since.clear();
        self.last_active_monitor = None;
        self.enabled = false;
        cmds
    }

    /// The tray's or the hotkey's on/off toggle. Switching off restores every dimmed
    /// monitor and forgets all per-monitor state; switching on changes nothing else.
    pub fn toggle_enabled(&mut self) -> (cmds: Vec<BrightnessCommand>)
        requires
            old(self)@.wf(),
        ensures
            final(self)@.wf(),
            final(self)@.enabled == !old(self)@.enabled,
            old(self)@.enabled ==> final(self)@ == disabled_view(old(self)@.config)
                && restores_exactly(cmds@, old(self)@.dimmed, old(self)@.config.active_brightness),
            !old(self)@.enabled ==> final(self)@ == (ControllerView { enabled: true, ..old(self)@ })
                && cmds@.len() == 0,
    {
        if self.enabled {
            self.switch_off()
        } else {
            self.enabled = true;
            Vec::new()
        }
    }

    /// A request to switch on: switches on when off, otherwise changes nothing.
    pub fn force_enable(&mut self)
        requires
            old(self)@.wf(),
        ensures
            final(self)@.wf(),
            final(self)@ == (ControllerView { enabled: true, ..old(self)@ }),
    {
        if !self.enabled {
            self.enabled = true;
        }
    }

    /// A request to switch off: when on, switches off as [`Controller::toggle_enabled`]
    /// does; otherwise changes nothing.
    pub fn force_disable(&mut self) -> (cmds: Vec<BrightnessCommand>)
        requires
            old(self)@.wf(),
        ensures
            final(self)@.wf(),
            old(self)@.enabled ==> final(self)@ == disabled_view(old(self)@.config)
                && restores_exactly(cmds@, old(self)@.dimmed, old(self)@.config.active_brightness),
            !old(self)@.enabled ==> final(self)@ == old(self)@ && cmds@.len() == 0,
    {
        if self.enabled {
            self.switch_off()
        } else {
            Vec::new()
        }
    }

    /// Polls the monitors: `monitors` as enumerated now, `cursor` the cursor position (or
    /// `None` when it could not be read) and `now_ms` a monotonic time in milliseconds.
    /// Returns the brightness changes to send, in order.
    pub fn poll(&mut self, monitors: &Vec<Monitor>, cursor: Option<(i32, i32)>, now_ms: u64) -> (cmds: Vec<BrightnessCommand>)
        requires
            old(self)@.wf(),
        ensures
            final(self)@.wf(),
            (final(self)@, cmds@) == poll_result(old(self)@, monitors@, cursor, now_ms),
    {
        if monitors.len() == 0 || !self.enabled {
            return Vec::new();
        }
        let ghost v0 = self@;
        let idx = get_cursor_monitor_index(monitors.as_slice(), cursor);
        let active: Option<isize> = match idx {
            Some(i) => Some(monitors[i].hmonitor),
            None => None,
        };
        assert(active == active_handle(monitors@, cursor));
        let mut cmds: Vec<BrightnessCommand> = Vec::new();
        let changed = match (active, self.last_active_monitor) {
            (Some(a), Some(b)) => a != b,
            (None, None) => false,
            _ => true,
        };
        if changed {
            if let Some(hm) = active {
                if dimmed_flag(&self.dimmed, hm) {
                    cmds.push(BrightnessCommand { hmonitor: hm, brightness: self.config.active_brightness });
                    self.dimmed.insert(hm, false);
                }
                self.inactive_since.remove(&hm);
            }
            self.last_active_monitor = active;
        }
        let ghost st0 = switch_active(v0, active);
        assert(self.inactive_since@ == st0.inactive_since);
        assert(self.dimmed@ == st0.dimmed);
        assert(cmds@ == st0.commands);
        let ghost hms = handles(monitors@);
        let config = self.config;
        for i in 0..monitors.len()
            invariant
                hms == handles(monitors@),
                config == v0.config,
                self.config == v0.config,
                self.enabled == v0.enabled,
                self.last_active_monitor == active,
                visit_monitors(st0, hms.take(i as int), active, now_ms, config)
                    == (PollState { inactive_since: self.inactive_since@, dimmed: self.dimmed@, commands: cmds@ }),
        {
            let hm = monitors[i].hmonitor;
            proof {
                assert(hms.take(i + 1).drop_last() == hms.take(i as int));
                assert(hms.take(i + 1).last() == hm);
            }
            let is_active = match active {
                Some(a) => a == hm,
                None => false,
            };
            if is_active {
                self.inactive_since.insert(hm, None);
            } else {
                let since: u64 = match self.inactive_since.get(&hm) {
                    Some(Some(t)) => *t,
                    _ => now_ms,
                };
                self.inactive_since.insert(hm, Some(since));
                let elapsed: u64 = if now_ms >= since { now_ms - since } else { 0 };
                proof {
                    lemma_idle_division(elapsed, config.idle_delay_seconds);
                }
                if elapsed / 1000 >= config.idle_delay_seconds && !dimmed_flag(&self.dimmed, hm) {
                    self.dimmed.insert(hm, true);
                    cmds.push(BrightnessCommand { hmonitor: hm, brightness: config.inactive_brightness });
                }
            }
        }
        proof {
            assert(hms.take(monitors.len() as int) == hms);
        }
        let keep = handle_set(monitors);
        self.inactive_since = restrict_keys(&self.inactive_since, &keep);
        self.dimmed = restrict_keys(&self.dimmed, &keep);
        proof {
            lemma_poll_keeps_wf(v0, monitors@, cursor, now_ms);
        }
        cmds
    }
}

/// Whole seconds of an elapsed time compare with a delay as the milliseconds do.
proof fn lemma_idle_division(elapsed: u64, delay: u64)
    ensures
        (elapsed / 1000 >= delay) == (elapsed >= delay * 1000),
{
    assert((elapsed / 1000 >= delay) == (elapsed >= delay * 1000)) by (nonlinear_arith);
}

/// A poll keeps the controller's invariant.
pub proof fn lemma_poll_keeps_wf(v: ControllerView, monitors: Seq<Monitor>, cursor: Option<(i32, i32)>, now: u64)
    requires
        v.wf(),
    ensures
        poll_result(v, monitors, cursor, now).0.wf(),
{
    if monitors.len() > 0 && v.enabled {
        let active = active_handle(monitors, cursor);
        if let Some(hm) = active {
            lemma_visit_keeps_active_undimmed(switch_active(v, active), handles(monitors), active, now, v.config, hm);
        }
    }
}

/// Visiting monitors never dims the active one, nor records a time the cursor left it.
pub proof fn lemma_visit_keeps_active_undimmed(st: PollState, hms: Seq<isize>, active: Option<isize>, now: u64, config: Config, hm: isize)
    requires
        active == Some(hm),
        !is_dimmed(st.dimmed, hm),
        !has_inactive_start(st.inactive_since, hm),
    ensures
        !is_dimmed(visit_monitors(st, hms, active, now, config).dimmed, hm),
        !has_inactive_start(visit_monitors(st, hms, active, now, config).inactive_since, hm),
    decreases hms.len(),
{
    if hms.len() > 0 {
        lemma_visit_keeps_active_undimmed(st, hms.drop_last(), active, now, config, hm);
    }
}

/// Visiting monitors never undoes a dimming.
pub proof fn lemma_visit_keeps_dimmed(st: PollState, hms: Seq<isize>, active: Option<isize>, now: u64, config: Config, hm: isize)
    requires
        is_dimmed(st.dimmed, hm),
    ensures
        is_dimmed(visit_monitors(st, hms, active, now, config).dimmed, hm),
    decreases hms.len(),
{
    if hms.len() > 0 {
        lemma_visit_keeps_dimmed(st, hms.drop_last(), active, now, config, hm);
    }
}

/// With no delay configured, every visited monitor other than the active one ends up dimmed.
pub proof fn lemma_visit_zero_delay(st: PollState, hms: Seq<isize>, active: Option<isize>, now: u64, config: Config)
    requires
        config.idle_delay_seconds == 0,
    ensures
        forall|k: isize| hms.contains(k) && active != Some(k) ==>
            is_dimmed(#[trigger] visit_monitors(st, hms, active, now, config).dimmed, k),
    decreases hms.len(),
{
    if hms.len() > 0 {
        let prev = visit_monitors(st, hms.drop_last(), active, now, config);
        lemma_visit_zero_delay(st, hms.drop_last(), active, now, config);
        assert forall|k: isize| hms.contains(k) && active != Some(k) implies
            is_dimmed(visit_monitors(st, hms, active, now, config).dimmed, k) by {
            if k != hms.last() {
                let i = choose|i: int| 0 <= i < hms.len() && hms[i] == k;
                assert(hms.drop_last()[i] == k);
                assert(hms.drop_last().contains(k));
            }
        }
    }
}

/// Every command of a visit addresses a visited monitor, or was there before.
pub proof fn lemma_visit_commands(st: PollState, hms: Seq<isize>, active: Option<isize>, now: u64, config: Config)
    ensures
        ({
            let r = visit_monitors(st, hms, active, now, config);
            &&& r.commands.len() >= st.commands.len()
            &&& r.commands.take(st.commands.len() as int) == st.commands
            &&& forall|i: int| st.commands.len() <= i < r.commands.len() ==> {
                &&& hms.contains((#[trigger] r.commands[i]).hmonitor)
                &&& active != Some(r.commands[i].hmonitor)
                &&& r.commands[i].brightness == config.inactive_brightness
            }
        }),
    decreases hms.len(),
{
    if hms.len() > 0 {
        let prev = visit_monitors(st, hms.drop_last(), active, now, config);
        lemma_visit_commands(st, hms.drop_last(), active, now, config);
        let r = visit_monitors(st, hms, active, now, config);
        assert forall|i: int| st.commands.len() <= i < r.commands.len() implies {
            &&& hms.contains((#[trigger] r.commands[i]).hmonitor)
            &&& active != Some(r.commands[i].hmonitor)
            &&& r.commands[i].brightness == config.inactive_brightness
        } by {
            if i < prev.commands.len() {
                assert(r.commands[i] == prev.commands[i]);
                let h = prev.commands[i].hmonitor;
                let j = choose|j: int| 0 <= j < hms.drop_last().len() && hms.drop_last()[j] == h;
                assert(hms[j] == h);
            } else {
                assert(hms[hms.len() - 1] == hms.last());
            }
        }
        assert(r.commands.take(st.commands.len() as int) =~= st.commands);
    }
}

/// A monitor that has just become inactive (no recorded start) is not dimmed by the
/// visit when a delay is configured, and no command addresses it.
pub proof fn lemma_visit_fresh_not_dimmed(st: PollState, hms: Seq<isize>, active: Option<isize>, now: u64, config: Config, hm: isize)
    requires
        config.idle_delay_seconds > 0,
        active != Some(hm),
        !is_dimmed(st.dimmed, hm),
        inactive_start(st.inactive_since, hm, now) == now,
    ensures
        ({
            let r = visit_monitors(st, hms, active, now, config);
            &&& !is_dimmed(r.dimmed, hm)
            &&& inactive_start(r.inactive_since, hm, now) == now
            &&& r.commands.len() >= st.commands.len()
            &&& forall|i: int| st.commands.len() <= i < r.commands.len() ==> (#[trigger] r.commands[i]).hmonitor != hm
        }),
    decreases hms.len(),
{
    if hms.len() > 0 {
        let prev = visit_monitors(st, hms.drop_last(), active, now, config);
        lemma_visit_fresh_not_dimmed(st, hms.drop_last(), active, now, config, hm);
        let r = visit_monitors(st, hms, active, now, config);
        assert forall|i: int| st.commands.len() <= i < r.commands.len() implies (#[trigger] r.commands[i]).hmonitor != hm by {
            if i < prev.commands.len() {
                assert(r.commands[i] == prev.commands[i]);
            }
        }
    }
}

/// Law: a poll never dims the monitor under the cursor; the only command that may
/// address it gives it the active brightness.
pub proof fn lemma_poll_spares_active(v: ControllerView, monitors: Seq<Monitor>, cursor: Option<(i32, i32)>, now: u64)
    requires
        v.wf(),
    ensures
        ({
            let (post, cmds) = poll_result(v, monitors, cursor, now);
            &&& post.last_active_monitor matches Some(hm) ==> !is_dimmed(post.dimmed, hm)
            &&& v.enabled && monitors.len() > 0 ==> forall|i: int| 0 <= i < cmds.len()
                && Some((#[trigger] cmds[i]).hmonitor) == active_handle(monitors, cursor)
                ==> cmds[i].brightness == v.config.active_brightness
        }),
{
    lemma_poll_keeps_wf(v, monitors, cursor, now);
    if v.enabled && monitors.len() > 0 {
        let active = active_handle(monitors, cursor);
        let st0 = switch_active(v, active);
        lemma_visit_commands(st0, handles(monitors), active, now, v.config);
        let r = visit_monitors(st0, handles(monitors), active, now, v.config);
        assert forall|i: int| 0 <= i < r.commands.len() && Some((#[trigger] r.commands[i]).hmonitor) == active
            implies r.commands[i].brightness == v.config.active_brightness by {
            if i < st0.commands.len() {
                assert(r.commands.take(st0.commands.len() as int)[i] == st0.commands[i]);
            }
        }
    }
}

/// Law: with an idle delay of 0 ("instant"), after a poll every connected monitor other
/// than the one under the cursor is dimmed.
pub proof fn lemma_poll_zero_delay_dims_others(v: ControllerView, monitors: Seq<Monitor>, cursor: Option<(i32, i32)>, now: u64)
    requires
        v.wf(),
        v.enabled,
        monitors.len() > 0,
        v.config.idle_delay_seconds == 0,
    ensures
        forall|i: int| 0 <= i < monitors.len() && Some((#[trigger] monitors[i]).hmonitor) != active_handle(monitors, cursor)
            ==> is_dimmed(poll_result(v, monitors, cursor, now).0.dimmed, monitors[i].hmonitor),
{
    let active = active_handle(monitors, cursor);
    let hms = handles(monitors);
    lemma_visit_zero_delay(switch_active(v, active), hms, active, now, v.config);
    assert forall|i: int| 0 <= i < monitors.len() && Some((#[trigger] monitors[i]).hmonitor) != active
        implies is_dimmed(poll_result(v, monitors, cursor, now).0.dimmed, monitors[i].hmonitor) by {
        assert(hms[i] == monitors[i].hmonitor);
        assert(hms.contains(monitors[i].hmonitor));
        assert(hms.to_set().contains(monitors[i].hmonitor));
    }
}

/// Law: after a poll that found monitors, the controller keeps state only for the
/// monitors that are connected, and every command addresses a connected monitor.
pub proof fn lemma_poll_forgets_disconnected(v: ControllerView, monitors: Seq<Monitor>, cursor: Option<(i32, i32)>, now: u64)
    requires
        v.wf(),
        monitors.len() > 0,
    ensures
        ({
            let (post, cmds) = poll_result(v, monitors, cursor, now);
            &&& forall|hm: isize| #[trigger] post.dimmed.contains_key(hm) ==> handles(monitors).contains(hm)
            &&& forall|hm: isize| #[trigger] post.inactive_since.contains_key(hm) ==> handles(monitors).contains(hm)
            &&& forall|i: int| 0 <= i < cmds.len() ==> handles(monitors).contains((#[trigger] cmds[i]).hmonitor)
        }),
{
    if v.enabled {
        let active = active_handle(monitors, cursor);
        let hms = handles(monitors);
        let st0 = switch_active(v, active);
        lemma_visit_commands(st0, hms, active, now, v.config);
        let r = visit_monitors(st0, hms, active, now, v.config);
        assert forall|i: int| 0 <= i < r.commands.len() implies hms.contains((#[trigger] r.commands[i]).hmonitor) by {
            if i < st0.commands.len() {
                assert(r.commands.take(st0.commands.len() as int)[i] == st0.commands[i]);
                let idx = cursor_monitor_index(monitors, cursor)->0;
                assert(hms[idx] == monitors[idx].hmonitor);
            }
        }
    }
}

/// Law: the cursor's absence must last the configured delay. When a delay is configured,
/// a poll does not dim a monitor the cursor has only just left, and sends it nothing.
pub proof fn lemma_poll_waits_for_delay(v: ControllerView, monitors: Seq<Monitor>, cursor: Option<(i32, i32)>, now: u64, hm: isize)
    requires
        v.wf(),
        v.config.idle_delay_seconds > 0,
        active_handle(monitors, cursor) != Some(hm),
        !is_dimmed(v.dimmed, hm),
        inactive_start(v.inactive_since, hm, now) == now,
    ensures
        ({
            let (post, cmds) = poll_result(v, monitors, cursor, now);
            &&& !is_dimmed(post.dimmed, hm)
            &&& forall|i: int| 0 <= i < cmds.len() ==> (#[trigger] cmds[i]).hmonitor != hm
        }),
{
    if v.enabled && monitors.len() > 0 {
        let active = active_handle(monitors, cursor);
        let st0 = switch_active(v, active);
        assert(inactive_start(st0.inactive_since, hm, now) == now);
        lemma_visit_fresh_not_dimmed(st0, handles(monitors), active, now, v.config, hm);
        lemma_visit_commands(st0, handles(monitors), active, now, v.config);
        let r = visit_monitors(st0, handles(monitors), active, now, v.config);
        assert forall|i: int| 0 <= i < r.commands.len() implies (#[trigger] r.commands[i]).hmonitor != hm by {
            if i < st0.commands.len() {
                assert(r.commands.take(st0.commands.len() as int)[i] == st0.commands[i]);
            }
        }
        let keep = handles(monitors).to_set();
        assert(!is_dimmed(r.dimmed.restrict(keep), hm));
    }
}

/// A monitor inactive since `t` keeps that start through a visit, and is dimmed by the
/// visit when it is among the visited monitors and `t` lies far enough back.
pub proof fn lemma_visit_dims_after_delay(st: PollState, hms: Seq<isize>, active: Option<isize>, now: u64, config: Config, hm: isize, t: u64)
    requires
        st.inactive_since.contains_key(hm),
        st.inactive_since[hm] == Some(t),
        idle_long_enough(t, now, config.idle_delay_seconds),
        active != Some(hm),
    ensures
        ({
            let r = visit_monitors(st, hms, active, now, config);
            &&& r.inactive_since.contains_key(hm)
            &&& r.inactive_since[hm] == Some(t)
            &&& hms.contains(hm) ==> is_dimmed(r.dimmed, hm)
        }),
    decreases hms.len(),
{
    if hms.len() > 0 {
        let prev = visit_monitors(st, hms.drop_last(), active, now, config);
        lemma_visit_dims_after_delay(st, hms.drop_last(), active, now, config, hm, t);
        if hms.contains(hm) && hms.last() != hm {
            let i = choose|i: int| 0 <= i < hms.len() && hms[i] == hm;
            assert(hms.drop_last()[i] == hm);
        }
    }
}

/// Law: a connected monitor the cursor left at `t` is dimmed by a poll at `now` once at
/// least the configured delay lies between them.
pub proof fn lemma_poll_dims_after_delay(v: ControllerView, monitors: Seq<Monitor>, cursor: Option<(i32, i32)>, now: u64, hm: isize, t: u64)
    requires
        v.wf(),
        v.enabled,
        handles(monitors).contains(hm),
        active_handle(monitors, cursor) != Some(hm),
        v.inactive_since.contains_key(hm),
        v.inactive_since[hm] == Some(t),
        idle_long_enough(t, now, v.config.idle_delay_seconds),
    ensures
        is_dimmed(poll_result(v, monitors, cursor, now).0.dimmed, hm),
{
    let active = active_handle(monitors, cursor);
    let st0 = switch_active(v, active);
    assert(monitors.len() > 0);
    lemma_visit_dims_after_delay(st0, handles(monitors), active, now, v.config, hm, t);
    assert(handles(monitors).to_set().contains(hm));
}

/// Law: after every poll, the monitor the controller takes as the one under the cursor
/// has no recorded time at which the cursor left it; when the controller is on and the
/// poll found monitors, that monitor is the one under the cursor.
pub proof fn lemma_poll_active_has_no_inactive_start(v: ControllerView, monitors: Seq<Monitor>, cursor: Option<(i32, i32)>, now: u64)
    requires
        v.wf(),
    ensures
        ({
            let post = poll_result(v, monitors, cursor, now).0;
            &&& post.last_active_monitor matches Some(hm) ==>
                !(post.inactive_since.contains_key(hm) && post.inactive_since[hm] is Some)
            &&& v.enabled && monitors.len() > 0 ==> post.last_active_monitor == active_handle(monitors, cursor)
        }),
{
    lemma_poll_keeps_wf(v, monitors, cursor, now);
}

/// Law: when a delay is configured and the cursor leaves the monitor it was on at the
/// previous poll, this poll neither dims that monitor nor sends it any command: its
/// absence has only just begun.
pub proof fn lemma_poll_leaving_monitor_not_dimmed(v: ControllerView, monitors: Seq<Monitor>, cursor: Option<(i32, i32)>, now: u64, hm: isize)
    requires
        v.wf(),
        v.config.idle_delay_seconds > 0,
        v.last_active_monitor == Some(hm),
        active_handle(monitors, cursor) != Some(hm),
    ensures
        ({
            let (post, cmds) = poll_result(v, monitors, cursor, now);
            &&& !(post.dimmed.contains_key(hm) && post.dimmed[hm])
            &&& forall|i: int| 0 <= i < cmds.len() ==> (#[trigger] cmds[i]).hmonitor != hm
        }),
{
    assert(inactive_start(v.inactive_since, hm, now) == now);
    lemma_poll_waits_for_delay(v, monitors, cursor, now, hm);
}

} // verus!
