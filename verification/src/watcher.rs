//! The watcher: it finds devices, asks them for their name, and keeps a bridge running for one.
use crate::cava_manager::{ANALYSER, SETTINGS_FILE};
use crate::config_manager::{env_bars, Config};
use crate::cooldown::{after_answer, entry_or_fresh, pause_after, Cooldown, Cooldowns};
use crate::device_identifier::{DeviceFormat, DeviceId, DeviceType};
use crate::devices::{descending, holds, sort_descending};
use crate::paths::{dir_of, is_plain, join_path, joined_path, parent_of, parent_path};
use crate::pieces::{contains_text, has_text};
use crate::reconnection::{elapsed, elapsed_ns};
use crate::text::{dec, dec_text, joined, law_dec_round_trip, same_text, views};
use vstd::prelude::*;
use vstd::string::*;

verus! {

/// How often a device is asked for its name.
pub const IDENTIFY_RETRIES: u32 = 3;

/// How often the player is looked for.
pub const MPD_CHECK_RETRIES: u32 = 30;

/// The time between two looks for the player, in nanoseconds.
pub const MPD_CHECK_INTERVAL_NS: u64 = 2_000_000_000;

/// The time that a bridge is given to start its analyser, in nanoseconds.
pub const BRIDGE_GRACE_NS: u64 = 8_000_000_000;

/// How many new devices are awaited at most.
pub const COLLECTED_DEVICES: usize = 8;

/// How long new devices are awaited at most, in nanoseconds.
pub const COLLECT_WINDOW_NS: u64 = 1_000_000_000;

/// The rest after a device was plugged in, in milliseconds.
pub const DEVICE_SETTLE_MS: u64 = 500;

/// The time that a device has to give its name, in nanoseconds.
pub const IDENTIFY_TIMEOUT_NS: u64 = 2_000_000_000;

/// The rest after bridges were stopped for a new device, in milliseconds.
pub const NEW_DEVICE_REST_MS: u64 = 300;

/// The rest after a device did not give its name, in milliseconds.
pub const IDENTIFY_REST_MS: u64 = 1000;

/// The rest after an analyser was ended for a new bridge, in milliseconds.
pub const CAVA_CLEARED_REST_MS: u64 = 1000;

/// The time after which a new bridge is looked at, in milliseconds.
pub const BRIDGE_SETTLE_MS: u64 = 1000;

/// How often a bridge that was killed is looked at.
pub const STOP_CHECKS: u32 = 30;

/// The rest before a bridge that was killed is looked at, in milliseconds.
pub const STOP_CHECK_MS: u64 = 100;

/// The rest after the bridges were stopped, in milliseconds.
pub const BRIDGE_STOP_WAIT_MS: u64 = 500;

/// The rest between the two signals to an analyser, in milliseconds.
pub const CAVA_KILL_REST_MS: u64 = 200;

// ---------------------------------------------------------------------------
// The bridge process
// ---------------------------------------------------------------------------

/// The device that has a bridge.
#[derive(Debug)]
pub struct Active {
    pub device: String,
    pub bridge_type: DeviceType,
    pub device_format: DeviceFormat,
    pub spectrum_bars: Option<u32>,
    pub has_sysinfo: bool,
}

/// A variable of the environment of a bridge.
#[derive(Debug)]
pub struct EnvVar {
    pub name: String,
    pub value: String,
}

/// What a bridge is told on its command line, and what in its environment.
#[derive(Debug)]
pub struct BridgePlan {
    pub arg: String,
    pub env: Vec<EnvVar>,
}

/// Variables, by their views.
pub open spec fn env_views(env: Seq<EnvVar>) -> Seq<(Seq<char>, Seq<char>)> {
    Seq::new(env.len(), |i: int| (env[i].name@, env[i].value@))
}

/// The environment of a bridge for a device.
pub open spec fn bridge_env(id: DeviceId, path: Seq<char>) -> Seq<(Seq<char>, Seq<char>)> {
    let base = seq![("DEVICE_PATH"@, path), ("MCUB_DEVICE_FORMAT"@, id.format.text())];
    let bars = match id.spectrum_bars {
        Some(n) => base.push(("MCUB_SPECTRUM_BARS"@, dec(n as nat))),
        None => base,
    };
    if id.has_sysinfo {
        bars.push(("MCUB_HAS_SYSINFO"@, "1"@))
    } else {
        bars
    }
}

pub(crate) fn env_var(name: &str, value: &str) -> (r: EnvVar)
    ensures
        r.name@ == name@,
        r.value@ == value@,
{
    EnvVar { name: name.to_owned(), value: value.to_owned() }
}

/// What the bridge of a device is told.
pub fn bridge_plan(id: &DeviceId, device_path: &str) -> (r: BridgePlan)
    ensures
        r.arg@ == id.device_type.text(),
        env_views(r.env@) == bridge_env(*id, device_path@),
{
    let mut env: Vec<EnvVar> = Vec::new();
    env.push(env_var("DEVICE_PATH", device_path));
    env.push(env_var("MCUB_DEVICE_FORMAT", id.format.as_str()));
    match id.spectrum_bars {
        Some(n) => {
            let bars = dec_text(n as u64);
            env.push(env_var("MCUB_SPECTRUM_BARS", bars.as_str()));
        },
        None => {},
    }
    if id.has_sysinfo {
        env.push(env_var("MCUB_HAS_SYSINFO", "1"));
    }
    assert(env_views(env@) =~= bridge_env(*id, device_path@));
    BridgePlan {
        arg: id.device_type.as_str().to_owned(),
        env,
    }
}

/// What is told of a device that gave its name.
pub open spec fn identified_text(id: DeviceId) -> Seq<char> {
    "Identified: "@ + id.device_type.text() + (if id.format == DeviceFormat::Binary {
        " (format=binary)"@
    } else {
        ""@
    }) + (match id.spectrum_bars {
        Some(n) => " (bars="@ + dec(n as nat) + ")"@,
        None => ""@,
    })
}

/// What is told of a device that gave its name.
pub fn identified_message(id: &DeviceId) -> (r: String)
    ensures
        r@ == identified_text(*id),
{
    let mut s = joined("Identified: ", id.device_type.as_str());
    if id.format == DeviceFormat::Binary {
        s.append(" (format=binary)");
    } else {
        s.append("");
    }
    match id.spectrum_bars {
        Some(n) => {
            let bars = dec_text(n as u64);
            let mut t = joined(" (bars=", bars.as_str());
            t.append(")");
            s.append(t.as_str());
        },
        None => {
            s.append("");
        },
    }
    s
}

/// What is told of a bridge that runs.
pub fn bridge_message(id: &DeviceId) -> (r: String)
    ensures
        r@ == "Bridge: "@ + id.device_type.text() + (if id.format == DeviceFormat::Binary {
            " (binary)"@
        } else {
            ""@
        }),
{
    let mut s = joined("Bridge: ", id.device_type.as_str());
    if id.format == DeviceFormat::Binary {
        s.append(" (binary)");
    } else {
        s.append("");
    }
    s
}

/// Where the program of the bridge is looked for: beside the program of the watcher, if its
/// directory is known, and then at four other places.
pub open spec fn bridge_places(dir: Option<Seq<char>>, root: Seq<char>) -> Seq<Seq<char>> {
    let others = seq![
        "/usr/local/bin/mcub-bridge-rust"@,
        "./mcub-bridge-rust"@,
        join_path(root, "target/release/mcub-bridge-rust"@),
        join_path(root, "target/debug/mcub-bridge-rust"@),
    ];
    match dir {
        Some(d) => seq![join_path(d, "mcub-bridge-rust"@)] + others,
        None => others,
    }
}

/// Where the program of the bridge is looked for, with the directory of the watcher known or not.
pub fn places_beside(dir: Option<&str>, project_root: &str) -> (r: Vec<String>)
    ensures
        views(r@) == bridge_places(
            match dir {
                Some(d) => Some(d@),
                None => None,
            },
            project_root@,
        ),
{
    let mut r: Vec<String> = Vec::new();
    match dir {
        Some(d) => {
            r.push(joined_path(d, "mcub-bridge-rust"));
        },
        None => {},
    }
    r.push("/usr/local/bin/mcub-bridge-rust".to_owned());
    r.push("./mcub-bridge-rust".to_owned());
    r.push(joined_path(project_root, "target/release/mcub-bridge-rust"));
    r.push(joined_path(project_root, "target/debug/mcub-bridge-rust"));
    assert(views(r@) =~= bridge_places(
        match dir {
            Some(d) => Some(d@),
            None => None,
        },
        project_root@,
    ));
    r
}

/// Where the program of the bridge is looked for, in this order. `exe` is the program of the
/// watcher, if it is known.
pub fn find_bridge_binary(exe: Option<&str>, project_root: &str) -> (r: Vec<String>)
    ensures
        views(r@) == bridge_places(
            match exe {
                Some(e) => parent_path(e@),
                None => None,
            },
            project_root@,
        ),
        exe matches Some(e) ==> (is_plain(e@) ==> views(r@) == bridge_places(
            Some(dir_of(e@)),
            project_root@,
        )),
{
    let dir = match exe {
        Some(e) => parent_of(e),
        None => None,
    };
    match &dir {
        Some(d) => places_beside(Some(d.as_str()), project_root),
        None => places_beside(None, project_root),
    }
}

/// The root of the project: the one that the environment names, or else the directory that holds
/// the directory of the program, or else the current one.
pub open spec fn root_of(env: Option<Seq<char>>, grandparent: Option<Seq<char>>) -> Seq<char> {
    match env {
        Some(e) if e.len() > 0 => e,
        _ => match grandparent {
            Some(p) => p,
            None => "."@,
        },
    }
}

/// The directory that holds the directory of a program, if it is known.
pub open spec fn grandparent(exe: Option<Seq<char>>) -> Option<Seq<char>> {
    match exe {
        Some(e) => match parent_path(e) {
            Some(d) => parent_path(d),
            None => None,
        },
        None => None,
    }
}

/// The root of the project, with the directory above that of the program known or not.
pub fn root_with(env: Option<&str>, above: Option<&str>) -> (r: String)
    ensures
        r@ == root_of(
            match env {
                Some(e) => Some(e@),
                None => None,
            },
            match above {
                Some(a) => Some(a@),
                None => None,
            },
        ),
{
    match env {
        Some(e) => {
            proof {
                reveal_strlit("");
                assert(e@.len() == 0 ==> e@ =~= ""@);
            }
            if !same_text(e, "") {
                return e.to_owned();
            }
        },
        None => {},
    }
    match above {
        Some(a) => a.to_owned(),
        None => ".".to_owned(),
    }
}

/// The root of the project.
pub fn resolve_project_root(env: Option<&str>, exe: Option<&str>) -> (r: String)
    ensures
        r@ == root_of(
            match env {
                Some(e) => Some(e@),
                None => None,
            },
            grandparent(
                match exe {
                    Some(e) => Some(e@),
                    None => None,
                },
            ),
        ),
        exe matches Some(e) ==> (is_plain(e@) && is_plain(dir_of(e@)) ==> r@ == root_of(
            match env {
                Some(v) => Some(v@),
                None => None,
            },
            Some(dir_of(dir_of(e@))),
        )),
{
    let above = match exe {
        Some(e) => match parent_of(e) {
            Some(d) => parent_of(d.as_str()),
            None => None,
        },
        None => None,
    };
    match &above {
        Some(a) => root_with(env, Some(a.as_str())),
        None => root_with(env, None),
    }
}

// ---------------------------------------------------------------------------
// The watcher
// ---------------------------------------------------------------------------

/// What follows a look for the player.
#[derive(Debug, Clone, Copy, PartialEq, Eq, Structural)]
pub enum MpdWait {
    Ready,
    /// Rest for so many nanoseconds and look again.
    Rest(u64),
    Timeout,
}

/// What follows a look for the player, after `tried` others.
pub fn wait_for_mpd(tried: u32, reached: bool) -> (r: MpdWait)
    requires
        tried < MPD_CHECK_RETRIES,
    ensures
        r == if reached {
            MpdWait::Ready
        } else if tried < MPD_CHECK_RETRIES - 1 {
            MpdWait::Rest(MPD_CHECK_INTERVAL_NS)
        } else {
            MpdWait::Timeout
        },
{
    if reached {
        MpdWait::Ready
    } else if tried < MPD_CHECK_RETRIES - 1 {
        MpdWait::Rest(MPD_CHECK_INTERVAL_NS)
    } else {
        MpdWait::Timeout
    }
}

/// What is to be done about the bridge that runs.
#[derive(Debug)]
pub enum HealthStep {
    /// Nothing.
    Fine,
    /// The bridge has ended: treat the device as new, if one is known.
    Restart(Option<String>),
    /// See whether the analyser runs.
    AskCava,
}

/// What is to be done when nothing happens.
#[derive(Debug, Clone, Copy, PartialEq, Eq, Structural)]
pub enum IdleStep {
    /// See to the bridge that runs.
    CheckHealth,
    /// Look for devices.
    Rescan,
    /// Nothing.
    Wait,
}

/// The state of the watcher.
#[derive(Debug)]
pub struct Watcher {
    pub device_check_interval: u32,
    pub baudrate: u32,
    pub bridge: bool,
    pub bridge_started_at: Option<u64>,
    pub active: Option<Active>,
    pub cooldowns: Cooldowns,
    pub last_rescan: Option<u64>,
}

/// The device that has a bridge.
pub open spec fn active_device(active: Option<Active>) -> Option<Seq<char>> {
    match active {
        Some(a) => Some(a.device@),
        None => None,
    }
}

/// The bridge was started so short a time ago that its analyser may not run yet.
pub open spec fn in_grace(started: Option<u64>, now: u64) -> bool {
    match started {
        Some(t) => elapsed(t, now) < BRIDGE_GRACE_NS,
        None => false,
    }
}

/// The device that has a bridge is to have its analyser started again.
pub open spec fn cava_id(a: Active) -> DeviceId {
    DeviceId {
        device_type: DeviceType::Cava,
        format: a.device_format,
        spectrum_bars: a.spectrum_bars,
        has_sysinfo: false,
    }
}

impl Watcher {
    pub open spec fn well_formed(self) -> bool {
        self.cooldowns.well_formed()
    }

    /// The watcher differs in nothing but what is remembered of devices that do not answer.
    pub open spec fn same_but_cooldowns(self, other: Watcher) -> bool {
        &&& self.device_check_interval == other.device_check_interval
        &&& self.baudrate == other.baudrate
        &&& self.bridge == other.bridge
        &&& self.bridge_started_at == other.bridge_started_at
        &&& self.active == other.active
        &&& self.last_rescan == other.last_rescan
    }

    /// A watcher that has found no device yet.
    pub fn new(config: &Config) -> (r: Watcher)
        ensures
            r.well_formed(),
            r.device_check_interval == config.watcher.device_check_interval,
            r.baudrate == config.bridge.connection.baudrate,
            !r.bridge,
            r.bridge_started_at is None,
            r.active is None,
            r.cooldowns@ == Map::<Seq<char>, Cooldown>::empty(),
            r.last_rescan is None,
    {
        Watcher {
            device_check_interval: config.watcher.device_check_interval,
            baudrate: config.bridge.connection.baudrate,
            bridge: false,
            bridge_started_at: None,
            active: None,
            cooldowns: Cooldowns::new(),
            last_rescan: None,
        }
    }

    /// What is to be done about the bridge, whose process has `ended` or not.
    pub fn check_active_bridge_health(&mut self, ended: bool, now: u64) -> (r: HealthStep)
        ensures
            if old(self).bridge && ended {
                &&& *final(self) == (Watcher { bridge: false, ..*old(self) })
                &&& r matches HealthStep::Restart(device)
                &&& match device {
                    Some(d) => active_device(old(self).active) == Some(d@),
                    None => old(self).active is None,
                }
            } else {
                &&& *final(self) == *old(self)
                &&& if old(self).active is Some && old(self).active->0.bridge_type
                    == DeviceType::Cava && !in_grace(old(self).bridge_started_at, now) {
                    r is AskCava
                } else {
                    r is Fine
                }
            },
    {
        if self.bridge && ended {
            self.bridge = false;
            return HealthStep::Restart(
                match &self.active {
                    Some(a) => Some(a.device.as_str().to_owned()),
                    None => None,
                },
            );
        }
        match &self.active {
            Some(a) => {
                let grace = match self.bridge_started_at {
                    Some(t) => elapsed_ns(t, now) < BRIDGE_GRACE_NS,
                    None => false,
                };
                if a.bridge_type == DeviceType::Cava && !grace {
                    HealthStep::AskCava
                } else {
                    HealthStep::Fine
                }
            },
            None => HealthStep::Fine,
        }
    }

    /// The device whose bridge is to be started anew, if its analyser does not run.
    pub fn cava_restart(&self, running: bool) -> (r: Option<(String, DeviceId)>)
        ensures
            match r {
                Some((device, id)) => !running && self.active is Some && device@
                    == self.active->0.device@ && id == cava_id(self.active->0),
                None => running || self.active is None,
            },
    {
        if running {
            return None;
        }
        match &self.active {
            Some(a) => {
                let id = DeviceId {
                    device_type: DeviceType::Cava,
                    format: a.device_format,
                    spectrum_bars: a.spectrum_bars,
                    has_sysinfo: false,
                };
                Some((a.device.as_str().to_owned(), id))
            },
            None => None,
        }
    }

    /// A look for devices is due at the time `now`.
    pub open spec fn rescan_due(self, now: u64) -> bool {
        match self.last_rescan {
            Some(t) => elapsed(t, now) / 1_000_000_000 >= self.device_check_interval,
            None => true,
        }
    }

    /// What is to be done at the time `now`, when nothing happens.
    pub fn idle(&mut self, now: u64) -> (r: IdleStep)
        ensures
            r == if old(self).active is Some {
                IdleStep::CheckHealth
            } else if old(self).rescan_due(now) {
                IdleStep::Rescan
            } else {
                IdleStep::Wait
            },
            *final(self) == if r == IdleStep::Rescan {
                Watcher { last_rescan: Some(now), ..*old(self) }
            } else {
                *old(self)
            },
    {
        if self.active.is_some() {
            return IdleStep::CheckHealth;
        }
        let due = match self.last_rescan {
            Some(t) => {
                let secs: u64 = elapsed_ns(t, now) / 1_000_000_000;
                secs >= self.device_check_interval as u64
            },
            None => true,
        };
        if due {
            self.last_rescan = Some(now);
            IdleStep::Rescan
        } else {
            IdleStep::Wait
        }
    }

    /// A device was plugged in: what was remembered of it does not count any more.
    pub fn plugged_in(&mut self, path: &str)
        requires
            old(self).well_formed(),
        ensures
            final(self).well_formed(),
            final(self).same_but_cooldowns(*old(self)),
            final(self).cooldowns@ == old(self).cooldowns@.remove(path@),
    {
        self.cooldowns.remove(path);
    }

    /// A device was unplugged. Returns whether it had the bridge, which is then to be ended.
    pub fn device_removed(&mut self, path: &str) -> (r: bool)
        requires
            old(self).well_formed(),
        ensures
            final(self).well_formed(),
            r == (active_device(old(self).active) == Some(path@)),
            final(self).cooldowns@ == old(self).cooldowns@.remove(path@),
            final(self).active == if r {
                None
            } else {
                old(self).active
            },
            final(self).device_check_interval == old(self).device_check_interval,
            final(self).baudrate == old(self).baudrate,
            final(self).bridge == old(self).bridge,
            final(self).bridge_started_at == old(self).bridge_started_at,
            final(self).last_rescan == old(self).last_rescan,
    {
        self.cooldowns.remove(path);
        if self.is_active(path) {
            self.active = None;
            true
        } else {
            false
        }
    }

    /// Whether the device has the bridge.
    pub fn is_active(&self, path: &str) -> (r: bool)
        ensures
            r == (active_device(self.active) == Some(path@)),
    {
        match &self.active {
            Some(a) => same_text(a.device.as_str(), path),
            None => false,
        }
    }
}

// ---------------------------------------------------------------------------
// A new device
// ---------------------------------------------------------------------------

/// What happened while a bridge is started.
#[derive(Debug, Clone, Copy, PartialEq, Eq, Structural)]
pub enum BridgeEvent {
    /// The bridge is wanted.
    Wanted,
    /// An analyser that still ran was ended.
    CavaCleared,
    /// The program of the bridge was found, or was not.
    Searched(bool),
    /// The process was made, or could not be.
    Spawned(bool),
    /// The process still runs a moment later, or does not.
    Settled(bool),
}

/// What to do next to start a bridge.
#[derive(Debug, Clone, Copy, PartialEq, Eq, Structural)]
pub enum BridgeStep {
    /// End an analyser that still runs, then rest for so many milliseconds.
    ClearCava(u64),
    /// Look for the program.
    Search,
    /// Make the process.
    Spawn,
    /// Wait for so many milliseconds and see whether the process still runs.
    Settle(u64),
    Running,
    Failed,
}

/// What follows an event while the bridge of a device is started.
pub open spec fn bridge_step(device_type: DeviceType, event: BridgeEvent) -> BridgeStep {
    match event {
        BridgeEvent::Wanted => if device_type == DeviceType::Cava {
            BridgeStep::ClearCava(CAVA_CLEARED_REST_MS)
        } else {
            BridgeStep::Search
        },
        BridgeEvent::CavaCleared => BridgeStep::Search,
        BridgeEvent::Searched(true) => BridgeStep::Spawn,
        BridgeEvent::Spawned(true) => BridgeStep::Settle(BRIDGE_SETTLE_MS),
        BridgeEvent::Settled(true) => BridgeStep::Running,
        _ => BridgeStep::Failed,
    }
}

/// A device that is being looked at: how often it was asked for its name, and what it said.
#[derive(Debug)]
pub struct NewDevice {
    pub path: String,
    pub tried: u32,
    pub id: Option<DeviceId>,
}

/// What happened while a new device is looked at.
#[derive(Debug, Clone, Copy, PartialEq, Eq, Structural)]
pub enum DeviceEvent {
    /// It was found.
    Found,
    /// The bridges that ran were stopped.
    Stopped,
    /// It gave its name, or did not.
    Answer(Option<DeviceId>),
    /// The rest after a try is over.
    Rested,
    /// Its bridge runs, or could not be started.
    Started(bool),
}

/// What to do next with a new device.
#[derive(Debug, Clone, Copy, PartialEq, Eq, Structural)]
pub enum DeviceStep {
    /// Stop the bridges that run, then rest for so many milliseconds.
    StopBridges(u64),
    /// Ask it for its name.
    Identify,
    /// After so many tries, rest for so many milliseconds.
    Rest(u32, u64),
    /// Start a bridge for it.
    Start(DeviceId),
    /// It has its bridge.
    Served,
    /// It has none. It is left alone for so many turns, if it did not answer for some time.
    NotServed(Option<u32>),
}

impl NewDevice {
    /// The device at `path`, not yet asked.
    pub fn new(path: &str) -> (r: NewDevice)
        ensures
            r.path@ == path@,
            r.tried == 0,
            r.id is None,
    {
        NewDevice { path: path.to_owned(), tried: 0, id: None }
    }

    /// No more tries than there may be were made, and where a bridge is started the device is
    /// known.
    pub open spec fn takes(self, event: DeviceEvent) -> bool {
        &&& event is Answer ==> self.tried < IDENTIFY_RETRIES
        &&& event is Started ==> self.id is Some
    }
}

impl Watcher {
    /// Goes on with the start of a bridge at the time `now`. The bridge is held once it runs.
    pub fn start_bridge(&mut self, id: &DeviceId, event: BridgeEvent, now: u64) -> (r: BridgeStep)
        ensures
            r == bridge_step(id.device_type, event),
            *final(self) == if r == BridgeStep::Running {
                Watcher { bridge: true, bridge_started_at: Some(now), ..*old(self) }
            } else {
                *old(self)
            },
    {
        match event {
            BridgeEvent::Wanted => if id.device_type == DeviceType::Cava {
                BridgeStep::ClearCava(CAVA_CLEARED_REST_MS)
            } else {
                BridgeStep::Search
            },
            BridgeEvent::CavaCleared => BridgeStep::Search,
            BridgeEvent::Searched(ok) => if ok {
                BridgeStep::Spawn
            } else {
                BridgeStep::Failed
            },
            BridgeEvent::Spawned(ok) => if ok {
                BridgeStep::Settle(BRIDGE_SETTLE_MS)
            } else {
                BridgeStep::Failed
            },
            BridgeEvent::Settled(ok) => {
                if ok {
                    self.bridge = true;
                    self.bridge_started_at = Some(now);
                    BridgeStep::Running
                } else {
                    BridgeStep::Failed
                }
            },
        }
    }

    /// The step, and what the watcher and the device are after it, follow the event.
    pub open spec fn device_follows(
        self,
        after: Watcher,
        device: NewDevice,
        device_after: NewDevice,
        event: DeviceEvent,
        step: DeviceStep,
    ) -> bool {
        let path = device.path@;
        let m = self.cooldowns@;
        match event {
            DeviceEvent::Found => {
                &&& step == if self.active is Some || self.bridge {
                    DeviceStep::StopBridges(NEW_DEVICE_REST_MS)
                } else {
                    DeviceStep::Identify
                }
                &&& after == self
                &&& device_after == device
            },
            DeviceEvent::Stopped => step == DeviceStep::Identify && after == self && device_after
                == device,
            DeviceEvent::Answer(None) => {
                &&& step == DeviceStep::Rest((device.tried + 1) as u32, IDENTIFY_REST_MS)
                &&& after == self
                &&& device_after == (NewDevice { tried: (device.tried + 1) as u32, ..device })
            },
            DeviceEvent::Answer(Some(id)) => {
                &&& step == DeviceStep::Start(id)
                &&& after.same_but_cooldowns(self)
                &&& after.cooldowns@ == after_answer(m, path)
                &&& device_after == (NewDevice { id: Some(id), ..device })
            },
            DeviceEvent::Rested => if device.tried < IDENTIFY_RETRIES {
                step == DeviceStep::Identify && after == self && device_after == device
            } else {
                let c = entry_or_fresh(m, path);
                &&& step == DeviceStep::NotServed(pause_after(c))
                &&& after.same_but_cooldowns(self)
                &&& after.cooldowns@ == m.insert(path, c.after_failure())
                &&& device_after == device
            },
            DeviceEvent::Started(true) => {
                &&& step == DeviceStep::Served
                &&& after == (Watcher { active: after.active, ..self })
                &&& after.active matches Some(a) && a.device@ == path && device.id == Some(
                    DeviceId {
                        device_type: a.bridge_type,
                        format: a.device_format,
                        spectrum_bars: a.spectrum_bars,
                        has_sysinfo: a.has_sysinfo,
                    },
                )
                &&& device_after == device
            },
            DeviceEvent::Started(false) => step == DeviceStep::NotServed(None) && after == self
                && device_after == device,
        }
    }

    /// Goes on with a new device after an event. Bridges that run are stopped first; the device is
    /// asked for its name up to three times; if it gives it, a bridge is started for it.
    pub fn handle_new_device(&mut self, device: &mut NewDevice, event: DeviceEvent) -> (r:
        DeviceStep)
        requires
            old(self).well_formed(),
            old(device).takes(event),
            event is Rested && old(device).tried >= IDENTIFY_RETRIES ==> entry_or_fresh(
                old(self).cooldowns@,
                old(device).path@,
            ).failures < u32::MAX,
        ensures
            final(self).well_formed(),
            old(self).device_follows(*final(self), *old(device), *final(device), event, r),
    {
        match event {
            DeviceEvent::Found => {
                if self.active.is_some() || self.bridge {
                    DeviceStep::StopBridges(NEW_DEVICE_REST_MS)
                } else {
                    DeviceStep::Identify
                }
            },
            DeviceEvent::Stopped => DeviceStep::Identify,
            DeviceEvent::Answer(answer) => match answer {
                Some(id) => {
                    self.cooldowns.record_success(device.path.as_str());
                    device.id = Some(id);
                    DeviceStep::Start(id)
                },
                None => {
                    device.tried = device.tried + 1;
                    DeviceStep::Rest(device.tried, IDENTIFY_REST_MS)
                },
            },
            DeviceEvent::Rested => {
                if device.tried < IDENTIFY_RETRIES {
                    DeviceStep::Identify
                } else {
                    DeviceStep::NotServed(self.cooldowns.record_failure(device.path.as_str()))
                }
            },
            DeviceEvent::Started(ok) => {
                if ok {
                    if let Some(id) = device.id {
                        self.active = Some(
                            Active {
                                device: device.path.as_str().to_owned(),
                                bridge_type: id.device_type,
                                device_format: id.format,
                                spectrum_bars: id.spectrum_bars,
                                has_sysinfo: id.has_sysinfo,
                            },
                        );
                    }
                    DeviceStep::Served
                } else {
                    DeviceStep::NotServed(None)
                }
            },
        }
    }
}

// ---------------------------------------------------------------------------
// Stopping bridges
// ---------------------------------------------------------------------------

/// What the command line of a bridge of this kind holds, whoever started it.
pub open spec fn bridge_pattern(kind: DeviceType) -> Seq<char> {
    "mcub-bridge-rust "@ + kind.text()
}

/// What the command line of a bridge of this kind holds.
pub fn pattern_of(kind: DeviceType) -> (r: String)
    ensures
        r@ == bridge_pattern(kind),
{
    joined("mcub-bridge-rust ", kind.as_str())
}

/// The kinds of bridges, in the order in which they are told to stop.
pub open spec fn bridge_kinds() -> Seq<DeviceType> {
    seq![DeviceType::Mpd, DeviceType::Cava, DeviceType::Hybrid, DeviceType::Sysinfo]
}

/// The kind of bridge that is told to stop after so many others.
pub open spec fn next_told(told: nat) -> Option<DeviceType> {
    if told < bridge_kinds().len() {
        Some(bridge_kinds()[told as int])
    } else {
        None
    }
}

/// How far the bridges are stopped: how often the one that was killed was looked at, and how many
/// kinds were told to stop.
#[derive(Debug, Clone, Copy, PartialEq, Eq, Structural)]
pub struct Cleanup {
    pub waited: u32,
    pub told: u32,
}

/// What happened while the bridges are stopped.
#[derive(Debug, Clone, Copy, PartialEq, Eq, Structural)]
pub enum CleanupEvent {
    /// They are to be stopped. The process of the bridge has ended or not, if there is one.
    Begin {
        ended: bool,
    },
    /// The bridge that was killed has ended or not.
    Waited {
        ended: bool,
    },
    /// The bridge that was killed is gone.
    Reaped,
    /// The processes of a kind were told to stop.
    Told,
    /// An analyser runs or not.
    Cava(bool),
    /// The analyser was ended.
    Cleared,
}

/// What to do next to stop the bridges.
#[derive(Debug)]
pub enum CleanupStep {
    /// Kill the process of the bridge, rest for so many milliseconds, and look at it.
    Kill(u64),
    /// Rest for so many milliseconds, and look at the process of the bridge.
    Rest(u64),
    /// Wait for the process of the bridge.
    Reap,
    /// Tell every process to stop whose command line holds the pattern.
    Tell {
        kind: DeviceType,
        pattern: String,
    },
    /// See whether an analyser runs.
    AskCava,
    /// End the analyser.
    ClearCava,
    /// Rest for so many milliseconds; then all is done.
    Done(u64),
}

/// A step to end an analyser.
#[derive(Debug)]
pub enum ClearStep {
    /// Tell every process to stop whose command line holds this.
    Tell(String),
    /// Rest for so many milliseconds.
    Rest(u64),
    /// Kill every process whose command line holds this.
    Kill(String),
    /// Remove this file, if it is there.
    Remove(String),
}

/// A step to end an analyser, by its view.
pub enum ClearView {
    Tell(Seq<char>),
    Rest(u64),
    Kill(Seq<char>),
    Remove(Seq<char>),
}

impl View for ClearStep {
    type V = ClearView;

    open spec fn view(&self) -> ClearView {
        match self {
            ClearStep::Tell(s) => ClearView::Tell(s@),
            ClearStep::Rest(ms) => ClearView::Rest(*ms),
            ClearStep::Kill(s) => ClearView::Kill(s@),
            ClearStep::Remove(s) => ClearView::Remove(s@),
        }
    }
}

/// The steps to end an analyser, in their order.
pub fn cleanup_cava_process() -> (r: Vec<ClearStep>)
    ensures
        r@.len() == 4,
        r@[0]@ == ClearView::Tell(ANALYSER@),
        r@[1]@ == ClearView::Rest(CAVA_KILL_REST_MS),
        r@[2]@ == ClearView::Kill(ANALYSER@),
        r@[3]@ == ClearView::Remove(SETTINGS_FILE@),
{
    let mut r: Vec<ClearStep> = Vec::new();
    r.push(ClearStep::Tell(ANALYSER.to_owned()));
    r.push(ClearStep::Rest(CAVA_KILL_REST_MS));
    r.push(ClearStep::Kill(ANALYSER.to_owned()));
    r.push(ClearStep::Remove(SETTINGS_FILE.to_owned()));
    r
}

impl CleanupStep {
    /// The step tells the bridges of a kind to stop, after so many others, or goes on to the
    /// analyser after the last.
    pub open spec fn tells(self, told: nat) -> bool {
        match next_told(told) {
            Some(k) => self matches CleanupStep::Tell { kind, pattern } && kind == k && pattern@
                == bridge_pattern(k),
            None => self is AskCava,
        }
    }
}

impl Cleanup {
    /// Nothing was done yet.
    pub fn new() -> (r: Cleanup)
        ensures
            r == (Cleanup { waited: 0, told: 0 }),
    {
        Cleanup { waited: 0, told: 0 }
    }

    /// The event can happen: no more looks and no more kinds were taken than there are.
    pub open spec fn takes(self, event: CleanupEvent) -> bool {
        &&& event is Waited ==> self.waited < STOP_CHECKS
        &&& event is Told ==> self.told < bridge_kinds().len()
    }
}

fn tell_next(told: u32) -> (r: CleanupStep)
    ensures
        r.tells(told as nat),
{
    let kind = if told == 0 {
        DeviceType::Mpd
    } else if told == 1 {
        DeviceType::Cava
    } else if told == 2 {
        DeviceType::Hybrid
    } else if told == 3 {
        DeviceType::Sysinfo
    } else {
        return CleanupStep::AskCava;
    };
    CleanupStep::Tell { kind, pattern: pattern_of(kind) }
}

impl Watcher {
    /// The step, and what the watcher and the cleanup are after it, follow the event. The process
    /// of the bridge is killed and reaped first, if it runs; then the bridges of every kind are told
    /// to stop, whoever started them, and an analyser that runs is ended.
    pub open spec fn cleanup_follows(
        self,
        after: Watcher,
        turn: Cleanup,
        turn_after: Cleanup,
        event: CleanupEvent,
        step: CleanupStep,
    ) -> bool {
        &&& after == if event is Begin {
            Watcher { bridge: false, ..self }
        } else {
            self
        }
        &&& match event {
            CleanupEvent::Begin { ended } => {
                &&& turn_after == (Cleanup { waited: 0, told: 0 })
                &&& if self.bridge && !ended {
                    step == CleanupStep::Kill(STOP_CHECK_MS)
                } else {
                    step.tells(0)
                }
            },
            CleanupEvent::Waited { ended } => {
                &&& turn_after == (Cleanup { waited: (turn.waited + 1) as u32, ..turn })
                &&& step == if ended || turn.waited + 1 >= STOP_CHECKS {
                    CleanupStep::Reap
                } else {
                    CleanupStep::Rest(STOP_CHECK_MS)
                }
            },
            CleanupEvent::Reaped => turn_after == turn && step.tells(0),
            CleanupEvent::Told => {
                &&& turn_after == (Cleanup { told: (turn.told + 1) as u32, ..turn })
                &&& step.tells((turn.told + 1) as nat)
            },
            CleanupEvent::Cava(running) => turn_after == turn && step == if running {
                CleanupStep::ClearCava
            } else {
                CleanupStep::Done(BRIDGE_STOP_WAIT_MS)
            },
            CleanupEvent::Cleared => turn_after == turn && step == CleanupStep::Done(
                BRIDGE_STOP_WAIT_MS,
            ),
        }
    }

    /// Goes on after an event while the bridges are stopped.
    pub fn cleanup_bridges(&mut self, turn: &mut Cleanup, event: CleanupEvent) -> (r: CleanupStep)
        requires
            old(turn).takes(event),
        ensures
            old(self).cleanup_follows(*final(self), *old(turn), *final(turn), event, r),
    {
        match event {
            CleanupEvent::Begin { ended } => {
                let had = self.bridge;
                self.bridge = false;
                *turn = Cleanup::new();
                if had && !ended {
                    CleanupStep::Kill(STOP_CHECK_MS)
                } else {
                    tell_next(0)
                }
            },
            CleanupEvent::Waited { ended } => {
                turn.waited = turn.waited + 1;
                if ended || turn.waited >= STOP_CHECKS {
                    CleanupStep::Reap
                } else {
                    CleanupStep::Rest(STOP_CHECK_MS)
                }
            },
            CleanupEvent::Reaped => tell_next(0),
            CleanupEvent::Told => {
                turn.told = turn.told + 1;
                tell_next(turn.told)
            },
            CleanupEvent::Cava(running) => if running {
                CleanupStep::ClearCava
            } else {
                CleanupStep::Done(BRIDGE_STOP_WAIT_MS)
            },
            CleanupEvent::Cleared => CleanupStep::Done(BRIDGE_STOP_WAIT_MS),
        }
    }
}

/// Bridges of every kind are told to stop, each kind once, and after the last of them the analyser
/// is seen to.
pub proof fn law_every_kind_is_stopped(kind: DeviceType)
    ensures
        exists|told: nat| told < 4 && #[trigger] next_told(told) == Some(kind),
        bridge_kinds().no_duplicates(),
        next_told(4) is None,
{
    assert(next_told(0) == Some(DeviceType::Mpd));
    assert(next_told(1) == Some(DeviceType::Cava));
    assert(next_told(2) == Some(DeviceType::Hybrid));
    assert(next_told(3) == Some(DeviceType::Sysinfo));
}

/// The bridge that was killed is looked at thirty times at most, so that it has three seconds to end;
/// and whatever step comes next, the event that answers it can be taken.
pub proof fn law_cleanup_goes_on(
    before: Watcher,
    after: Watcher,
    turn: Cleanup,
    turn_after: Cleanup,
    event: CleanupEvent,
    step: CleanupStep,
)
    requires
        before.cleanup_follows(after, turn, turn_after, event, step),
        turn.takes(event),
        turn.waited <= 30,
        event is Reaped ==> turn.told == 0,
    ensures
        turn_after.waited <= 30,
        turn_after.waited * STOP_CHECK_MS <= 3000,
        step is Kill || step is Rest ==> turn_after.waited < 30,
        step is Kill || step is Rest ==> forall|ended: bool| #[trigger]
            turn_after.takes(CleanupEvent::Waited { ended }),
        step is Tell ==> turn_after.takes(CleanupEvent::Told),
{
}

/// Whatever happens while the bridges are stopped, the watcher holds no bridge from the start of it
/// on, and what it knows of devices stays.
pub proof fn law_cleanup_keeps_devices(
    before: Watcher,
    after: Watcher,
    turn: Cleanup,
    turn_after: Cleanup,
    event: CleanupEvent,
    step: CleanupStep,
)
    requires
        before.cleanup_follows(after, turn, turn_after, event, step),
        event is Begin || !before.bridge,
    ensures
        !after.bridge,
        after.active == before.active,
        after.cooldowns == before.cooldowns,
{
}

// ---------------------------------------------------------------------------
// Polling
// ---------------------------------------------------------------------------

/// A turn of polling: the devices that were found, which of them comes next, and for how many turns
/// the one that just did not answer is left alone, if it is.
#[derive(Debug)]
pub struct PollTurn {
    pub devices: Vec<String>,
    pub at: usize,
    pub pause: Option<u32>,
}

impl PollTurn {
    /// A turn with these devices.
    pub fn new(devices: Vec<String>) -> (r: PollTurn)
        ensures
            r.devices == devices,
            r.at == 0,
            r.pause is None,
    {
        PollTurn { devices, at: 0, pause: None }
    }
}

/// What happened in a turn of polling.
#[derive(Debug, Clone, Copy, PartialEq, Eq, Structural)]
pub enum PollEvent {
    /// The devices were found.
    Begin,
    /// The device gave its name, or did not.
    Answer(bool),
}

/// What to do in a turn of polling.
#[derive(Debug, Clone, Copy, PartialEq, Eq, Structural)]
pub enum PollStep {
    /// See to the bridge that runs; then the turn is over.
    CheckHealth,
    /// Ask the next device for its name.
    Identify,
    /// Treat the device as new; then the turn is over.
    HandleNew,
    /// Stop the bridges; then the turn is over.
    StopBridges,
    /// The turn is over.
    Over,
}

/// Where the walk through the devices stops, and what is remembered then: at the device that has
/// the bridge, at one that is not left alone, or behind the last. Those that are passed over have
/// one turn less to be left alone.
pub open spec fn walk(
    active: Option<Seq<char>>,
    m: Map<Seq<char>, Cooldown>,
    devices: Seq<Seq<char>>,
    at: int,
) -> (int, Map<Seq<char>, Cooldown>)
    decreases devices.len() - at,
{
    if at < 0 || at >= devices.len() {
        (at, m)
    } else {
        let d = devices[at];
        if active == Some(d) {
            (at, m)
        } else if m.contains_key(d) && m[d].skip_remaining > 0 {
            walk(
                active,
                m.insert(
                    d,
                    Cooldown { skip_remaining: (m[d].skip_remaining - 1) as u32, ..m[d] },
                ),
                devices,
                at + 1,
            )
        } else {
            (at, m)
        }
    }
}

/// What to do where the walk has stopped.
pub open spec fn stop_step(active: Option<Seq<char>>, devices: Seq<Seq<char>>, at: int) -> PollStep {
    if at >= devices.len() {
        if active is Some {
            PollStep::StopBridges
        } else {
            PollStep::Over
        }
    } else if active == Some(devices[at]) {
        PollStep::CheckHealth
    } else {
        PollStep::Identify
    }
}

impl Watcher {
    /// The step, and what the watcher and the turn are after it, follow the event.
    pub open spec fn poll_follows(
        self,
        after: Watcher,
        turn: PollTurn,
        turn_after: PollTurn,
        event: PollEvent,
        step: PollStep,
    ) -> bool {
        let list = views(turn.devices@);
        let active = active_device(self.active);
        let device = list[turn.at as int];
        let c = entry_or_fresh(self.cooldowns@, device);
        let (from, m) = match event {
            PollEvent::Begin => (turn.at as int, self.cooldowns@),
            PollEvent::Answer(true) => (turn.at as int, after_answer(self.cooldowns@, device)),
            PollEvent::Answer(false) => (
                turn.at + 1,
                self.cooldowns@.insert(device, c.after_failure()),
            ),
        };
        let (stop, left) = walk(active, m, list, from);
        &&& turn_after.devices == turn.devices
        &&& turn_after.pause == if event == PollEvent::Answer(false) {
            pause_after(c)
        } else {
            None
        }
        &&& if event == PollEvent::Answer(true) {
            &&& step == PollStep::HandleNew
            &&& turn_after.at == turn.at
            &&& after.same_but_cooldowns(self)
            &&& after.cooldowns@ == m
        } else {
            &&& turn_after.at == stop
            &&& step == stop_step(active, list, stop)
            &&& after.cooldowns@ == left
            &&& after.active == if step == PollStep::StopBridges {
                None
            } else {
                self.active
            }
            &&& after.device_check_interval == self.device_check_interval
            &&& after.baudrate == self.baudrate
            &&& after.bridge == self.bridge
            &&& after.bridge_started_at == self.bridge_started_at
            &&& after.last_rescan == self.last_rescan
        }
    }

    /// The rest after a turn of polling, in milliseconds.
    pub fn poll_rest_ms(&self) -> (r: u64)
        ensures
            r == 1000 * self.device_check_interval,
    {
        1000 * self.device_check_interval as u64
    }

    /// Goes on with a turn of polling after an event. The device that has the bridge is seen to;
    /// otherwise the first that gives its name is treated as new. If there is no such device, the
    /// bridges are stopped.
    pub fn run_polling(&mut self, turn: &mut PollTurn, event: PollEvent) -> (r: PollStep)
        requires
            old(self).well_formed(),
            old(turn).at <= old(turn).devices@.len(),
            event is Answer ==> old(turn).at < old(turn).devices@.len(),
            event == PollEvent::Answer(false) ==> entry_or_fresh(
                old(self).cooldowns@,
                old(turn).devices@[old(turn).at as int]@,
            ).failures < u32::MAX,
        ensures
            final(self).well_formed(),
            old(self).poll_follows(*final(self), *old(turn), *final(turn), event, r),
    {
        let ghost list = views(turn.devices@);
        let ghost active = active_device(self.active);
        let n: usize = turn.devices.len();
        turn.pause = None;
        match event {
            PollEvent::Begin => {},
            PollEvent::Answer(found) => {
                assert(list[turn.at as int] == turn.devices@[turn.at as int]@);
                if found {
                    self.cooldowns.record_success(turn.devices[turn.at].as_str());
                    return PollStep::HandleNew;
                }
                turn.pause = self.cooldowns.record_failure(turn.devices[turn.at].as_str());
                turn.at = turn.at + 1;
            },
        }
        let ghost goal = walk(active, self.cooldowns@, list, turn.at as int);
        let mut i: usize = turn.at;
        while i < n
            invariant
                n == turn.devices@.len(),
                i <= n,
                turn.devices == old(turn).devices,
                turn.pause == if event == PollEvent::Answer(false) {
                    pause_after(entry_or_fresh(old(self).cooldowns@, list[old(turn).at as int]))
                } else {
                    None
                },
                list == views(turn.devices@),
                active == active_device(self.active),
                self.well_formed(),
                self.same_but_cooldowns(*old(self)),
                goal == walk(active, self.cooldowns@, list, i as int),
                old(self).well_formed(),
                ({
                    let device = list[old(turn).at as int];
                    let c = entry_or_fresh(old(self).cooldowns@, device);
                    goal == match event {
                        PollEvent::Begin => walk(
                            active,
                            old(self).cooldowns@,
                            list,
                            old(turn).at as int,
                        ),
                        PollEvent::Answer(_) => walk(
                            active,
                            old(self).cooldowns@.insert(device, c.after_failure()),
                            list,
                            old(turn).at + 1,
                        ),
                    }
                }),
                event != PollEvent::Answer(true),
            decreases n - i,
        {
            assert(list[i as int] == turn.devices@[i as int]@);
            if self.is_active(turn.devices[i].as_str()) {
                turn.at = i;
                return PollStep::CheckHealth;
            }
            if !self.cooldowns.should_skip(turn.devices[i].as_str()) {
                turn.at = i;
                return PollStep::Identify;
            }
            i = i + 1;
        }
        turn.at = i;
        if self.active.is_some() {
            self.active = None;
            PollStep::StopBridges
        } else {
            PollStep::Over
        }
    }
}

// ---------------------------------------------------------------------------
// Devices that come and go
// ---------------------------------------------------------------------------

/// What happened to a device.
#[derive(Debug, Clone, Copy, PartialEq, Eq, Structural)]
pub enum PlugEvent {
    Added,
    Removed,
    Other,
}

/// The devices that came and went, without repeats among those that came.
#[derive(Debug)]
pub struct Plugged {
    pub pending: Vec<String>,
    pub removed: Vec<String>,
}

/// The node is a device of ours.
pub open spec fn is_tty_acm(node: Seq<char>) -> bool {
    contains_text(node, "ttyACM"@)
}

/// The list with one more text, unless it is there.
pub open spec fn with_one(list: Seq<Seq<char>>, s: Seq<char>) -> Seq<Seq<char>> {
    if list.contains(s) {
        list
    } else {
        list.push(s)
    }
}

impl Plugged {
    /// Nothing happened.
    pub fn new() -> (r: Plugged)
        ensures
            r.pending@.len() == 0,
            r.removed@.len() == 0,
    {
        Plugged { pending: Vec::new(), removed: Vec::new() }
    }

    /// Takes note of an event. Once the first events were taken, only devices that come count.
    /// Returns whether a device of ours came.
    pub fn take_event(&mut self, node: &str, event: PlugEvent, first: bool) -> (r: bool)
        ensures
            r == (is_tty_acm(node@) && event == PlugEvent::Added),
            views(final(self).pending@) == if r {
                with_one(views(old(self).pending@), node@)
            } else {
                views(old(self).pending@)
            },
            views(final(self).removed@) == if is_tty_acm(node@) && event == PlugEvent::Removed
                && first {
                views(old(self).removed@).push(node@)
            } else {
                views(old(self).removed@)
            },
    {
        if !has_text(node, "ttyACM") {
            return false;
        }
        match event {
            PlugEvent::Added => {
                if !holds(&self.pending, node) {
                    self.pending.push(node.to_owned());
                    assert(views(self.pending@) =~= views(old(self).pending@).push(node@));
                }
                true
            },
            PlugEvent::Removed => {
                if first {
                    self.removed.push(node.to_owned());
                    assert(views(self.removed@) =~= views(old(self).removed@).push(node@));
                }
                false
            },
            PlugEvent::Other => false,
        }
    }

    /// Whether more devices are awaited, after they were for so many nanoseconds.
    pub fn wants_more(&self, waited_ns: u64) -> (r: bool)
        ensures
            r == (waited_ns < COLLECT_WINDOW_NS && self.pending@.len() < COLLECTED_DEVICES),
    {
        waited_ns < COLLECT_WINDOW_NS && self.pending.len() < COLLECTED_DEVICES
    }

    /// The devices that came, in the order in which they are tried, and those that went.
    pub fn finish(self) -> (r: (Vec<String>, Vec<String>))
        ensures
            descending(views(r.0@)),
            views(r.0@).to_multiset() == views(self.pending@).to_multiset(),
            r.1 == self.removed,
    {
        (sort_descending(self.pending), self.removed)
    }
}

/// However often a device is announced, it is tried once: the list of those that came stays
/// without repeats.
pub proof fn law_each_device_once(list: Seq<Seq<char>>, node: Seq<char>)
    requires
        list.no_duplicates(),
    ensures
        with_one(list, node).no_duplicates(),
        with_one(list, node).contains(node),
        with_one(with_one(list, node), node) == with_one(list, node),
{
    if !list.contains(node) {
        assert(with_one(list, node).last() == node);
        assert(with_one(list, node)[list.len() as int] == node);
    }
}

// ---------------------------------------------------------------------------
// Watching
// ---------------------------------------------------------------------------

/// What the watcher is at: the devices to try, the one that comes next, and whether they were just
/// plugged in; and then the devices that went, and the one of them that comes next.
#[derive(Debug)]
pub struct WatchTurn {
    pub devices: Vec<String>,
    pub at: usize,
    pub plugged: bool,
    pub removed: Vec<String>,
    pub gone: usize,
}

/// What happened while the watcher runs.
#[derive(Debug)]
pub enum WatchEvent {
    /// The watcher has started.
    Begin,
    /// These devices were found.
    Scanned(Vec<String>),
    /// The next device was treated as new: it has its bridge, or has none.
    Tried(bool),
    /// The next device that went was seen to.
    Parted,
    /// Nothing happened for a while.
    Quiet,
    /// Devices came or went.
    Plugs(Plugged),
}

/// What the watcher does next.
#[derive(Debug, Clone, Copy, PartialEq, Eq, Structural)]
pub enum WatchStep {
    /// Look for devices.
    Scan,
    /// Treat the next device as new.
    Try,
    /// The next device that went is gone; stop the bridges, if it had the bridge.
    Gone(bool),
    /// See to the bridge that runs, then wait.
    CheckHealth,
    /// Wait for devices to come or go.
    Wait,
}

impl WatchTurn {
    /// Nothing to do.
    pub fn new() -> (r: WatchTurn)
        ensures
            r.devices@.len() == 0,
            r.at == 0,
            !r.plugged,
            r.removed@.len() == 0,
            r.gone == 0,
    {
        WatchTurn { devices: Vec::new(), at: 0, plugged: false, removed: Vec::new(), gone: 0 }
    }

    /// The event can happen: where it speaks of the next device, there is one.
    pub open spec fn takes(self, event: WatchEvent) -> bool {
        &&& event is Tried ==> self.at < self.devices@.len()
        &&& event is Parted ==> self.gone < self.removed@.len()
    }

    /// The turn that an event leads to. The devices that were found, or that came, are tried until
    /// one has its bridge.
    pub open spec fn follows(self, before: WatchTurn, event: WatchEvent) -> bool {
        match event {
            WatchEvent::Begin => self == before,
            WatchEvent::Quiet => self == before,
            WatchEvent::Scanned(list) => {
                &&& self == (WatchTurn {
                    devices: list,
                    at: 0,
                    plugged: false,
                    removed: self.removed,
                    gone: 0,
                })
                &&& self.removed@.len() == 0
            },
            WatchEvent::Tried(true) => self == (WatchTurn { at: before.devices.len(), ..before }),
            WatchEvent::Tried(false) => self == (WatchTurn { at: (before.at + 1) as usize, ..before }),
            WatchEvent::Parted => self == (WatchTurn { gone: (before.gone + 1) as usize, ..before }),
            WatchEvent::Plugs(p) => {
                &&& self == (WatchTurn {
                    devices: self.devices,
                    at: 0,
                    plugged: true,
                    removed: p.removed,
                    gone: 0,
                })
                &&& descending(views(self.devices@))
                &&& views(self.devices@).to_multiset() == views(p.pending@).to_multiset()
            },
        }
    }
}

impl Watcher {
    /// The step that a turn asks for, and what the watcher is after it. What was remembered of a
    /// device that was plugged in, or that went, does not count any more. A device that went has no
    /// bridge any more.
    pub open spec fn goes_on(self, after: Watcher, turn: WatchTurn, step: WatchStep) -> bool {
        let m = self.cooldowns@;
        if turn.at < turn.devices@.len() {
            let device = turn.devices@[turn.at as int]@;
            &&& step == WatchStep::Try
            &&& after.same_but_cooldowns(self)
            &&& after.cooldowns@ == if turn.plugged {
                m.remove(device)
            } else {
                m
            }
        } else if turn.gone < turn.removed@.len() {
            let device = turn.removed@[turn.gone as int]@;
            let had = active_device(self.active) == Some(device);
            &&& step == WatchStep::Gone(had)
            &&& after.same_but_cooldowns(
                Watcher {
                    active: if had {
                        None
                    } else {
                        self.active
                    },
                    ..self
                },
            )
            &&& after.cooldowns@ == m.remove(device)
        } else {
            step == WatchStep::Wait && after == self
        }
    }

    /// The step, and what the watcher is after it, follow the event.
    pub open spec fn watch_follows(
        self,
        after: Watcher,
        turn_after: WatchTurn,
        event: WatchEvent,
        now: u64,
        step: WatchStep,
    ) -> bool {
        match event {
            WatchEvent::Begin => step == WatchStep::Scan && after == self,
            WatchEvent::Quiet => if self.active is Some {
                step == WatchStep::CheckHealth && after == self
            } else if self.rescan_due(now) {
                step == WatchStep::Scan && after == (Watcher { last_rescan: Some(now), ..self })
            } else {
                step == WatchStep::Wait && after == self
            },
            _ => self.goes_on(after, turn_after, step),
        }
    }

    fn go_on(&mut self, turn: &WatchTurn) -> (r: WatchStep)
        requires
            old(self).well_formed(),
        ensures
            final(self).well_formed(),
            old(self).goes_on(*final(self), *turn, r),
    {
        if turn.at < turn.devices.len() {
            if turn.plugged {
                self.plugged_in(turn.devices[turn.at].as_str());
            }
            WatchStep::Try
        } else if turn.gone < turn.removed.len() {
            WatchStep::Gone(self.device_removed(turn.removed[turn.gone].as_str()))
        } else {
            WatchStep::Wait
        }
    }

    /// Goes on after an event at the time `now`. The devices that are there at the start, or that
    /// come, are treated as new, one after the other, until one has its bridge; those that went are
    /// seen to after them. When nothing happens, the bridge that runs is seen to, or devices are
    /// looked for from time to time, if none runs.
    pub fn run(&mut self, turn: &mut WatchTurn, event: WatchEvent, now: u64) -> (r: WatchStep)
        requires
            old(self).well_formed(),
            old(turn).takes(event),
        ensures
            final(self).well_formed(),
            final(turn).follows(*old(turn), event),
            old(self).watch_follows(*final(self), *final(turn), event, now, r),
    {
        match event {
            WatchEvent::Begin => WatchStep::Scan,
            WatchEvent::Quiet => match self.idle(now) {
                IdleStep::CheckHealth => WatchStep::CheckHealth,
                IdleStep::Rescan => WatchStep::Scan,
                IdleStep::Wait => WatchStep::Wait,
            },
            WatchEvent::Scanned(devices) => {
                *turn = WatchTurn { devices, at: 0, plugged: false, removed: Vec::new(), gone: 0 };
                self.go_on(turn)
            },
            WatchEvent::Tried(served) => {
                assert(turn.at < turn.devices.len());
                turn.at = if served {
                    turn.devices.len()
                } else {
                    turn.at + 1
                };
                self.go_on(turn)
            },
            WatchEvent::Parted => {
                assert(turn.gone < turn.removed.len());
                turn.gone = turn.gone + 1;
                self.go_on(turn)
            },
            WatchEvent::Plugs(plugged) => {
                let (devices, removed) = plugged.finish();
                *turn = WatchTurn { devices, at: 0, plugged: true, removed, gone: 0 };
                self.go_on(turn)
            },
        }
    }
}

/// Once a device has its bridge, no other of the same list is tried.
pub proof fn law_one_is_served(
    before: Watcher,
    after: Watcher,
    turn: WatchTurn,
    turn_after: WatchTurn,
    now: u64,
    step: WatchStep,
)
    requires
        turn_after.follows(turn, WatchEvent::Tried(true)),
        before.watch_follows(after, turn_after, WatchEvent::Tried(true), now, step),
    ensures
        step != WatchStep::Try,
{
}

/// A device that went has no bridge, and nothing is remembered of it.
pub proof fn law_gone_is_forgotten(
    before: Watcher,
    after: Watcher,
    turn: WatchTurn,
    step: WatchStep,
)
    requires
        before.goes_on(after, turn, step),
        step is Gone,
    ensures
        ({
            let device = turn.removed@[turn.gone as int]@;
            active_device(after.active) != Some(device) && !after.cooldowns@.contains_key(device)
        }),
{
}

/// As long as a device has the bridge, no devices are looked for.
pub proof fn law_no_scan_while_served(
    before: Watcher,
    after: Watcher,
    turn_after: WatchTurn,
    event: WatchEvent,
    now: u64,
    step: WatchStep,
)
    requires
        before.watch_follows(after, turn_after, event, now, step),
        before.active is Some,
        !(event is Begin),
    ensures
        step != WatchStep::Scan,
{
}

// ---------------------------------------------------------------------------
// The command line
// ---------------------------------------------------------------------------

/// What the watcher is asked for.
#[derive(Debug, Clone, Copy, PartialEq, Eq, Structural)]
pub enum WatcherArgs {
    Version,
    Help,
    Run {
        status: bool,
        cleanup: bool,
        no_wait_mpd: bool,
    },
}

/// What the arguments ask for, in addition to what was asked for before them. The first that asks
/// for the version or for help decides; what is not known does not count.
pub open spec fn args_after(
    args: Seq<Seq<char>>,
    status: bool,
    cleanup: bool,
    no_wait_mpd: bool,
) -> WatcherArgs
    decreases args.len(),
{
    if args.len() == 0 {
        WatcherArgs::Run { status, cleanup, no_wait_mpd }
    } else {
        let a = args[0];
        let rest = args.drop_first();
        if a == "--status"@ {
            args_after(rest, true, cleanup, no_wait_mpd)
        } else if a == "--cleanup"@ {
            args_after(rest, status, true, no_wait_mpd)
        } else if a == "--no-wait-mpd"@ {
            args_after(rest, status, cleanup, true)
        } else if a == "--version"@ {
            WatcherArgs::Version
        } else if a == "--help"@ || a == "-h"@ {
            WatcherArgs::Help
        } else {
            args_after(rest, status, cleanup, no_wait_mpd)
        }
    }
}

/// What the command line asks for. Its first word is the name of the program.
pub fn parse_args(args: &Vec<String>) -> (r: WatcherArgs)
    ensures
        r == args_after(
            if args@.len() > 0 {
                views(args@).drop_first()
            } else {
                Seq::empty()
            },
            false,
            false,
            false,
        ),
{
    let mut status = false;
    let mut cleanup = false;
    let mut no_wait_mpd = false;
    let ghost all = views(args@);
    let ghost told = if args@.len() > 0 {
        all.drop_first()
    } else {
        Seq::empty()
    };
    let n: usize = args.len();
    if n == 0 {
        return WatcherArgs::Run { status, cleanup, no_wait_mpd };
    }
    let mut i: usize = 1;
    assert(all.skip(1) =~= all.drop_first());
    while i < n
        invariant
            n == args@.len(),
            1 <= i <= n,
            all == views(args@),
            told == all.drop_first(),
            args_after(told, false, false, false) == args_after(
                all.skip(i as int),
                status,
                cleanup,
                no_wait_mpd,
            ),
        decreases n - i,
    {
        let a = args[i].as_str();
        proof {
            assert(all.skip(i as int)[0] == a@);
            assert(all.skip(i as int).drop_first() =~= all.skip(i + 1));
        }
        if same_text(a, "--status") {
            status = true;
        } else if same_text(a, "--cleanup") {
            cleanup = true;
        } else if same_text(a, "--no-wait-mpd") {
            no_wait_mpd = true;
        } else if same_text(a, "--version") {
            return WatcherArgs::Version;
        } else if same_text(a, "--help") || same_text(a, "-h") {
            return WatcherArgs::Help;
        }
        i = i + 1;
    }
    WatcherArgs::Run { status, cleanup, no_wait_mpd }
}

/// A switch as a digit.
pub open spec fn digit(on: bool) -> Seq<char> {
    if on {
        "1"@
    } else {
        "0"@
    }
}

fn digit_text(on: bool) -> (r: &'static str)
    ensures
        r@ == digit(on),
{
    if on {
        "1"
    } else {
        "0"
    }
}

impl Watcher {
    /// The lines that tell of the state of the watcher.
    pub open spec fn status_lines(
        self,
        version: Seq<char>,
        devices: nat,
        mpd: bool,
        cava: bool,
    ) -> Seq<Seq<char>> {
        seq![
            "MCUB WATCHER v"@ + version,
            "Active device: "@ + match self.active {
                Some(a) => a.device@,
                None => "None"@,
            },
            "Active bridge: "@ + match self.active {
                Some(a) => a.bridge_type.text(),
                None => "None"@,
            },
            "Connected devices: "@ + dec(devices),
            "MPD bridge running: "@ + digit(mpd),
            "CAVA bridge running: "@ + digit(cava),
        ]
    }

    /// The lines that tell of the state of the watcher, with so many devices connected, and with
    /// the bridges of two kinds running or not.
    pub fn status_report(&self, version: &str, devices: usize, mpd: bool, cava: bool) -> (r: Vec<
        String,
    >)
        ensures
            views(r@) == self.status_lines(version@, devices as nat, mpd, cava),
    {
        let mut r: Vec<String> = Vec::new();
        r.push(joined("MCUB WATCHER v", version));
        match &self.active {
            Some(a) => {
                r.push(joined("Active device: ", a.device.as_str()));
                r.push(joined("Active bridge: ", a.bridge_type.as_str()));
            },
            None => {
                r.push(joined("Active device: ", "None"));
                r.push(joined("Active bridge: ", "None"));
            },
        }
        let count = dec_text(devices as u64);
        r.push(joined("Connected devices: ", count.as_str()));
        r.push(joined("MPD bridge running: ", digit_text(mpd)));
        r.push(joined("CAVA bridge running: ", digit_text(cava)));
        assert(views(r@) =~= self.status_lines(version@, devices as nat, mpd, cava));
        r
    }
}

// ---------------------------------------------------------------------------
// What holds of the watcher
// ---------------------------------------------------------------------------

/// A new device is asked for its name at most three times: after the third try without an answer
/// it is given up, and that counts as one failure, however many tries it took.
pub proof fn law_three_tries(
    before: Watcher,
    after: Watcher,
    device: NewDevice,
    device_after: NewDevice,
    step: DeviceStep,
)
    requires
        before.device_follows(after, device, device_after, DeviceEvent::Rested, step),
    ensures
        step == DeviceStep::Identify <==> device.tried < IDENTIFY_RETRIES,
        device.tried >= IDENTIFY_RETRIES ==> step is NotServed && after.cooldowns@[device.path@]
            == entry_or_fresh(before.cooldowns@, device.path@).after_failure(),
{
}

/// What is remembered after `n` turns of polling in which the only device was passed over.
pub open spec fn after_turns(m: Map<Seq<char>, Cooldown>, device: Seq<char>, n: nat) -> Map<
    Seq<char>,
    Cooldown,
>
    decreases n,
{
    if n == 0 {
        m
    } else {
        walk(None, after_turns(m, device, (n - 1) as nat), seq![device], 0).1
    }
}

/// A device that is left alone for some turns is passed over in exactly as many, and asked in the
/// next.
pub proof fn law_left_alone_ends(m: Map<Seq<char>, Cooldown>, device: Seq<char>, n: nat)
    requires
        m.contains_key(device),
        n <= m[device].skip_remaining,
    ensures
        after_turns(m, device, n).contains_key(device),
        after_turns(m, device, n)[device].skip_remaining == m[device].skip_remaining - n,
        ({
            let (stop, _) = walk(None, after_turns(m, device, n), seq![device], 0);
            if n < m[device].skip_remaining {
                stop_step(None, seq![device], stop) == PollStep::Over
            } else {
                stop_step(None, seq![device], stop) == PollStep::Identify
            }
        }),
    decreases n,
{
    if n > 0 {
        law_left_alone_ends(m, device, (n - 1) as nat);
    }
    reveal_with_fuel(walk, 3);
}

/// The bridge learns from its environment what the watcher learnt from the device: the format, and
/// the number of bars, if the device gave one.
pub proof fn law_bridge_is_told(id: DeviceId, path: Seq<char>)
    ensures
        bridge_env(id, path)[0] == ("DEVICE_PATH"@, path),
        bridge_env(id, path)[1] == ("MCUB_DEVICE_FORMAT"@, id.format.text()),
        id.spectrum_bars matches Some(n) ==> bridge_env(id, path)[2] == (
            "MCUB_SPECTRUM_BARS"@,
            dec(n as nat),
        ) && env_bars(Some(dec(n as nat))) == Some(n as nat),
        id.has_sysinfo ==> bridge_env(id, path).last() == ("MCUB_HAS_SYSINFO"@, "1"@),
{
    if let Some(n) = id.spectrum_bars {
        law_dec_round_trip(n as int);
    }
}

} // verus!
