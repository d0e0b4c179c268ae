//! The bridge for devices that want more than one kind of message.
use crate::cava_bridge::{
    frame_step, more_skipped, next_frame_step, FrameSkip, FrameStep, STATS_INTERVAL_NS,
};
use crate::cava_manager::ReadResult;
use crate::config_manager::{CavaEnvConfig, Config};
use crate::device_identifier::{detect_modes, modes_of, no_modes, Modes};
use crate::mpd_bridge::{
    is_command, plan_of, state_message, MpdBridge, Params, StateData, WireMessage,
};
use crate::reconnection::{elapsed, elapsed_ns};
use crate::sysinfo_bridge::{interval_of, update_interval};
use crate::text::{joined, opt_view, same_text, text_of, to_chars, views};
use vstd::prelude::*;
use vstd::string::*;

verus! {

/// The time between two looks at the workers, in nanoseconds.
pub const HEALTH_CHECK_NS: u64 = 500_000_000;

/// The shortest time between two tries to reach the player, in nanoseconds.
pub const MPD_RECONNECT_NS: u64 = 5_000_000_000;

/// The time to rest after a try that failed, in nanoseconds.
pub const AFTER_FAILURE_NS: u64 = 1_000_000_000;

/// The time to rest before the next try is allowed, in nanoseconds.
pub const BEFORE_RETRY_NS: u64 = 500_000_000;

/// The time to rest after the message could not be built, in nanoseconds.
pub const NO_MESSAGE_NS: u64 = 100_000_000;

/// The time that a command is awaited, in milliseconds.
pub const COMMAND_WAIT_MS: u64 = 50;

/// The time to rest after no command came, in nanoseconds.
pub const NO_COMMAND_NS: u64 = 10_000_000;

/// The shortest rest between two updates, in nanoseconds.
pub const SHORTEST_REST_NS: u64 = 50_000_000;

/// The longest part of a rest, in nanoseconds: a signal is seen between two parts.
pub const REST_PART_NS: u64 = 100_000_000;

/// How much of a title is shown, in characters.
pub const SHOWN_TITLE: usize = 30;

// ---------------------------------------------------------------------------
// Modes
// ---------------------------------------------------------------------------

/// What the reply of a device says of its modes.
#[derive(Debug)]
pub struct HybridId {
    pub modes: Vec<String>,
    pub name: Option<String>,
}

/// The modes of either.
pub open spec fn both_modes(a: Modes, b: Modes) -> Modes {
    Modes { mpd: a.mpd || b.mpd, cava: a.cava || b.cava, sysinfo: a.sysinfo || b.sysinfo }
}

/// The modes of the device after a reply: those that were known before, those of the reply, and, if
/// the environment asks for it, the state of the machine. A reply that could not be read adds
/// nothing.
pub open spec fn supported_modes(known: Modes, id: Option<HybridId>, sysinfo: bool) -> Modes {
    match id {
        None => known,
        Some(id) => both_modes(
            both_modes(known, modes_of(views(id.modes@), opt_view(id.name))),
            Modes { mpd: false, cava: false, sysinfo },
        ),
    }
}

/// The reply tells of modes: it lists some, known or not, or one is known by other means.
pub open spec fn modes_detected(known: Modes, id: Option<HybridId>, sysinfo: bool) -> bool {
    match id {
        None => false,
        Some(id) => {
            let m = supported_modes(known, Some(id), sysinfo);
            id.modes@.len() > 0 || m.mpd || m.cava || m.sysinfo
        },
    }
}

/// The environment asks for the state of the machine.
pub fn asks_for_sysinfo(value: Option<&str>) -> (r: bool)
    ensures
        r == (value matches Some(s) && s@ == "1"@),
{
    match value {
        Some(s) => same_text(s, "1"),
        None => false,
    }
}

/// What a reply and the environment say only adds to the modes.
pub proof fn law_modes_only_grow(known: Modes, id: Option<HybridId>, sysinfo: bool)
    ensures
        ({
            let m = supported_modes(known, id, sysinfo);
            let without = supported_modes(known, id, false);
            &&& known.mpd ==> m.mpd
            &&& known.cava ==> m.cava
            &&& known.sysinfo ==> m.sysinfo
            &&& m.mpd == without.mpd && m.cava == without.cava && (without.sysinfo ==> m.sysinfo)
        }),
{
}

// ---------------------------------------------------------------------------
// Workers
// ---------------------------------------------------------------------------

/// A worker of the bridge.
#[derive(Debug, Clone, Copy, PartialEq, Eq, Structural)]
pub enum Worker {
    Mpd,
    Cava,
    Commands,
    Sysinfo,
}

impl Worker {
    /// The name of the worker.
    pub open spec fn text(self) -> Seq<char> {
        match self {
            Worker::Mpd => "MPDCheckerThread"@,
            Worker::Cava => "CAVAReaderThread"@,
            Worker::Commands => "CommandProcessorThread"@,
            Worker::Sysinfo => "SysInfoThread"@,
        }
    }

    pub fn as_str(self) -> (r: &'static str)
        ensures
            r@ == self.text(),
    {
        match self {
            Worker::Mpd => "MPDCheckerThread",
            Worker::Cava => "CAVAReaderThread",
            Worker::Commands => "CommandProcessorThread",
            Worker::Sysinfo => "SysInfoThread",
        }
    }
}

/// A part of the start of the bridge.
#[derive(Debug, Clone, Copy, PartialEq, Eq, Structural)]
pub enum Launch {
    /// Reach the player, and start the worker that watches it, reached or not.
    Mpd,
    /// Start the analyser, and its worker, if it runs.
    Cava,
    /// Take a first look at the processor.
    WarmUp,
    /// Start the worker that reads commands.
    Commands,
    /// Start the worker that tells of the machine.
    Sysinfo,
}

/// The start of a bridge for the given modes.
pub open spec fn launch_list(m: Modes) -> Seq<Launch> {
    let a = if m.mpd {
        seq![Launch::Mpd]
    } else {
        Seq::empty()
    };
    let b = if m.cava {
        a.push(Launch::Cava)
    } else {
        a
    };
    if m.sysinfo {
        b.push(Launch::WarmUp).push(Launch::Commands).push(Launch::Sysinfo)
    } else {
        b.push(Launch::Commands)
    }
}

/// The workers that have not ended.
pub open spec fn still_running(workers: Seq<Worker>, finished: Seq<bool>) -> Seq<Worker>
    decreases workers.len(),
{
    if workers.len() == 0 {
        Seq::empty()
    } else {
        let before = still_running(workers.drop_last(), finished.drop_last());
        if finished.last() {
            before
        } else {
            before.push(workers.last())
        }
    }
}

/// The last of the workers that have ended.
pub open spec fn last_ended(workers: Seq<Worker>, finished: Seq<bool>) -> Option<Worker>
    decreases workers.len(),
{
    if workers.len() == 0 {
        None
    } else if finished.last() {
        Some(workers.last())
    } else {
        last_ended(workers.drop_last(), finished.drop_last())
    }
}

/// As long as no worker has ended, all go on.
pub proof fn law_none_ended(workers: Seq<Worker>, finished: Seq<bool>)
    requires
        workers.len() == finished.len(),
    ensures
        last_ended(workers, finished) is None <==> forall|i: int|
            0 <= i < finished.len() ==> !finished[i],
        last_ended(workers, finished) is None ==> still_running(workers, finished) == workers,
    decreases workers.len(),
{
    if workers.len() > 0 {
        let f = finished.drop_last();
        law_none_ended(workers.drop_last(), f);
        if last_ended(workers, finished) is None {
            assert forall|i: int| 0 <= i < finished.len() implies !finished[i] by {
                if i < f.len() {
                    assert(f[i] == finished[i]);
                }
            }
            assert(still_running(workers, finished) =~= workers);
        } else if forall|i: int| 0 <= i < finished.len() ==> !finished[i] {
            assert(!finished[finished.len() - 1]);
            assert forall|i: int| 0 <= i < f.len() implies !f[i] by {
                assert(f[i] == finished[i]);
            }
        }
    }
}

// ---------------------------------------------------------------------------
// Counts
// ---------------------------------------------------------------------------

/// What the next report will tell. Times are in nanoseconds.
#[derive(Debug, Clone, Copy, PartialEq, Eq, Structural)]
pub struct Stats {
    pub cava_frames: u32,
    pub mpd_updates: u32,
    pub sysinfo_updates: u32,
    pub bytes_sent: usize,
    pub commands: u32,
    pub mpd_latency_total_ns: u64,
    pub mpd_latency_max_ns: u64,
    pub last_report: u64,
    pub start: u64,
}

/// A report: the counts since the last one, the time since then, and the seconds since the start.
#[derive(Debug, Clone, Copy, PartialEq, Eq, Structural)]
pub struct HybridReport {
    pub counts: Stats,
    pub elapsed_ns: u64,
    pub uptime_secs: u64,
}

/// No counts, since the time `now`.
pub open spec fn no_counts(start: u64, now: u64) -> Stats {
    Stats {
        cava_frames: 0,
        mpd_updates: 0,
        sysinfo_updates: 0,
        bytes_sent: 0,
        commands: 0,
        mpd_latency_total_ns: 0,
        mpd_latency_max_ns: 0,
        last_report: now,
        start,
    }
}

fn fresh_counts(start: u64, now: u64) -> (r: Stats)
    ensures
        r == no_counts(start, now),
{
    Stats {
        cava_frames: 0,
        mpd_updates: 0,
        sysinfo_updates: 0,
        bytes_sent: 0,
        commands: 0,
        mpd_latency_total_ns: 0,
        mpd_latency_max_ns: 0,
        last_report: now,
        start,
    }
}

/// The frames that were missed, if so many were expected: none, if none came at all.
pub fn missed_frames(expected: i32, frames: u32) -> (r: i32)
    requires
        0 <= expected,
        frames <= i32::MAX,
    ensures
        r == if frames == 0 || frames >= expected {
            0
        } else {
            expected - frames
        },
{
    if frames == 0 {
        return 0;
    }
    let missed: i32 = expected - frames as i32;
    if missed < 0 {
        0
    } else {
        missed
    }
}

// ---------------------------------------------------------------------------
// Commands
// ---------------------------------------------------------------------------

/// What to do with a message.
#[derive(Debug)]
pub enum CommandStep {
    /// It is no command.
    NoCommand,
    /// No such action is known, or it lacks the name it needs.
    Ignore,
    /// Run the command of this name.
    Exec(String),
    /// Hand the action to the player.
    Mpd,
    /// The device does not use the player.
    NotSupported,
}

/// What to do with a message, by its view.
pub enum CommandView {
    NoCommand,
    Ignore,
    Exec(Seq<char>),
    Mpd,
    NotSupported,
}

impl View for CommandStep {
    type V = CommandView;

    open spec fn view(&self) -> CommandView {
        match self {
            CommandStep::NoCommand => CommandView::NoCommand,
            CommandStep::Ignore => CommandView::Ignore,
            CommandStep::Exec(s) => CommandView::Exec(s@),
            CommandStep::Mpd => CommandView::Mpd,
            CommandStep::NotSupported => CommandView::NotSupported,
        }
    }
}

/// The actions that the player takes.
pub open spec fn player_action(action: Seq<char>) -> bool {
    ||| action == "play_pause"@
    ||| action == "next"@
    ||| action == "previous"@
    ||| action == "stop"@
    ||| action == "set_volume"@
    ||| action == "volume_up"@
    ||| action == "volume_down"@
    ||| action == "repeat"@
    ||| action == "single"@
    ||| action == "consume"@
    ||| action == "random"@
}

/// What to do with a message.
pub open spec fn command_step(m: WireMessage, mpd: bool) -> CommandView {
    if !is_command(m) {
        CommandView::NoCommand
    } else {
        let c = m.content->0;
        if c.action@ == "exec"@ {
            match c.parameters {
                Some(p) => match p.name {
                    Some(n) => CommandView::Exec(n@),
                    None => CommandView::Ignore,
                },
                None => CommandView::Ignore,
            }
        } else if !player_action(c.action@) {
            CommandView::Ignore
        } else if mpd {
            CommandView::Mpd
        } else {
            CommandView::NotSupported
        }
    }
}

fn is_player_action(action: &str) -> (r: bool)
    ensures
        r == player_action(action@),
{
    same_text(action, "play_pause") || same_text(action, "next") || same_text(action, "previous")
        || same_text(action, "stop") || same_text(action, "set_volume") || same_text(
        action,
        "volume_up",
    ) || same_text(action, "volume_down") || same_text(action, "repeat") || same_text(
        action,
        "single",
    ) || same_text(action, "consume") || same_text(action, "random")
}

// ---------------------------------------------------------------------------
// The bridge
// ---------------------------------------------------------------------------

/// What happened while the bridge comes up.
#[derive(Debug)]
pub enum HybridEvent {
    /// The line was opened, or could not be.
    Connected(bool),
    /// The device did not answer.
    NoAnswer,
    /// The device answered; nothing, if its reply could not be read.
    Answered(Option<HybridId>),
    /// The loop has ended: this worker did, or a signal came.
    Ended(Option<Worker>),
}

/// What to do next.
#[derive(Debug)]
pub enum HybridStep {
    Identify,
    /// Start these parts, one after the other. `detected` tells whether the reply told of modes.
    Launch {
        parts: Vec<Launch>,
        detected: bool,
    },
    /// Leave with this exit code.
    Exit(i32),
}

/// What to do in a turn of the main loop.
#[derive(Debug, Clone, Copy, PartialEq, Eq, Structural)]
pub enum TurnStep {
    /// A worker has ended: leave.
    Stop(Worker),
    /// Start the analyser, if its device is there by now; then report and rest.
    TryCava,
    /// Report and rest.
    Rest,
}

/// Whether the analyser is yet to be started, and the workers.
pub struct Readers {
    pub deferred: bool,
    pub workers: Seq<Worker>,
}

/// What becomes of them when the analyser was started, or could not be.
pub open spec fn after_start(r: Readers, ok: bool) -> Readers {
    Readers {
        deferred: !ok,
        workers: if ok {
            r.workers.push(Worker::Cava)
        } else {
            r.workers
        },
    }
}

/// What to do in a turn of the main loop, by which of the workers have ended.
pub open spec fn turn_step(r: Readers, finished: Seq<bool>) -> TurnStep {
    match last_ended(r.workers, finished) {
        Some(w) => TurnStep::Stop(w),
        None => if r.deferred {
            TurnStep::TryCava
        } else {
            TurnStep::Rest
        },
    }
}

/// What becomes of them in turns in which no worker has ended. A turn that tries to start the
/// analyser has the outcome that stands for it; the outcomes of the other turns do not count.
pub open spec fn after_turns(r: Readers, outcomes: Seq<bool>) -> Readers
    decreases outcomes.len(),
{
    if outcomes.len() == 0 {
        r
    } else {
        let before = after_turns(r, outcomes.drop_last());
        if turn_step(before, none_ended(before)) == TurnStep::TryCava {
            after_start(before, outcomes.last())
        } else {
            before
        }
    }
}

/// No worker has ended.
pub open spec fn none_ended(r: Readers) -> Seq<bool> {
    Seq::new(r.workers.len(), |i: int| false)
}

/// The bridge as its workers share it.
#[derive(Debug)]
pub struct HybridBridge {
    pub supports: Modes,
    pub workers: Vec<Worker>,
    pub stats: Stats,
    pub cava_skip: FrameSkip,
    pub cava_deferred: bool,
    pub device_format: String,
    pub cava_format: String,
    pub spectrum_bars: Option<u32>,
    pub mpd_update_interval_ns: u64,
    pub sysinfo_interval_ns: u64,
    pub last_mpd_update: Option<u64>,
}

impl HybridBridge {
    /// What the bridge was made with, and keeps.
    pub open spec fn same_settings(self, other: HybridBridge) -> bool {
        &&& self.device_format == other.device_format
        &&& self.cava_format == other.cava_format
        &&& self.spectrum_bars == other.spectrum_bars
        &&& self.mpd_update_interval_ns == other.mpd_update_interval_ns
        &&& self.sysinfo_interval_ns == other.sysinfo_interval_ns
    }

    /// The bridge at the time `now`, for a device that the environment describes.
    pub fn new(config: &Config, env: CavaEnvConfig, now: u64) -> (r: HybridBridge)
        ensures
            r.supports == no_modes(),
            r.workers@.len() == 0,
            r.stats == no_counts(now, now),
            r.cava_skip == (FrameSkip { count: 0, remaining: 0 }),
            !r.cava_deferred,
            r.device_format == env.device_format,
            r.cava_format == env.cava_format,
            r.spectrum_bars == match env.spectrum_bars {
                Some(n) => Some(n),
                None => Some(config.cava.defaults.spectrum_bars),
            },
            r.mpd_update_interval_ns == config.mpd.update_interval_ns,
            r.sysinfo_interval_ns == interval_of(config.sysinfo.update_interval_ns),
            r.last_mpd_update is None,
    {
        let spectrum_bars: Option<u32> = match env.spectrum_bars {
            Some(n) => Some(n),
            None => Some(config.cava.defaults.spectrum_bars),
        };
        HybridBridge {
            supports: Modes { mpd: false, cava: false, sysinfo: false },
            workers: Vec::new(),
            stats: fresh_counts(now, now),
            cava_skip: FrameSkip::new(),
            cava_deferred: false,
            device_format: env.device_format,
            cava_format: env.cava_format,
            spectrum_bars,
            mpd_update_interval_ns: config.mpd.update_interval_ns,
            sysinfo_interval_ns: update_interval(&config.sysinfo),
            last_mpd_update: None,
        }
    }

    /// Takes the modes of the device from its reply, to those that are known. Returns whether the
    /// reply told of any.
    pub fn extract_supported_modes(&mut self, id: &Option<HybridId>, sysinfo: bool) -> (r: bool)
        ensures
            r == modes_detected(old(self).supports, *id, sysinfo),
            *final(self) == (HybridBridge {
                supports: supported_modes(old(self).supports, *id, sysinfo),
                ..*old(self)
            }),
    {
        match id {
            None => false,
            Some(d) => {
                let m = detect_modes(&d.modes, &d.name);
                self.supports = Modes {
                    mpd: self.supports.mpd || m.mpd,
                    cava: self.supports.cava || m.cava,
                    sysinfo: self.supports.sysinfo || m.sysinfo || sysinfo,
                };
                d.modes.len() > 0 || self.supports.mpd || self.supports.cava
                    || self.supports.sysinfo
            },
        }
    }

    /// The step, and what the bridge is after it, follow the event. Only a device that answered has
    /// parts started for it.
    pub open spec fn run_follows(
        self,
        after: HybridBridge,
        event: HybridEvent,
        sysinfo: bool,
        step: HybridStep,
    ) -> bool {
        match event {
            HybridEvent::Connected(true) => step is Identify && after == self,
            HybridEvent::Connected(false) => step == HybridStep::Exit(1) && after == self,
            HybridEvent::NoAnswer => step == HybridStep::Exit(1) && after == self,
            HybridEvent::Answered(id) => {
                &&& after == (HybridBridge {
                    supports: supported_modes(self.supports, id, sysinfo),
                    ..self
                })
                &&& step matches HybridStep::Launch { parts, detected }
                &&& parts@ == launch_list(after.supports)
                &&& detected == modes_detected(self.supports, id, sysinfo)
            },
            HybridEvent::Ended(_) => step == HybridStep::Exit(0) && after == self,
        }
    }

    /// Goes on after an event while the bridge comes up, or leaves after it has run. `sysinfo`
    /// tells whether the environment asks for the state of the machine.
    pub fn run(&mut self, event: HybridEvent, sysinfo: bool) -> (r: HybridStep)
        ensures
            old(self).run_follows(*final(self), event, sysinfo, r),
    {
        match event {
            HybridEvent::Connected(ok) => if ok {
                HybridStep::Identify
            } else {
                HybridStep::Exit(1)
            },
            HybridEvent::NoAnswer => HybridStep::Exit(1),
            HybridEvent::Answered(id) => {
                let detected = self.extract_supported_modes(&id, sysinfo);
                let m = self.supports;
                let mut parts: Vec<Launch> = Vec::new();
                if m.mpd {
                    parts.push(Launch::Mpd);
                }
                if m.cava {
                    parts.push(Launch::Cava);
                }
                if m.sysinfo {
                    parts.push(Launch::WarmUp);
                }
                parts.push(Launch::Commands);
                if m.sysinfo {
                    parts.push(Launch::Sysinfo);
                }
                assert(parts@ =~= launch_list(m));
                HybridStep::Launch { parts, detected }
            },
            HybridEvent::Ended(_) => HybridStep::Exit(0),
        }
    }

    /// Takes note of a worker that was started.
    pub fn started(&mut self, worker: Worker)
        ensures
            final(self).workers@ == old(self).workers@.push(worker),
            final(self).same_settings(*old(self)),
            final(self).supports == old(self).supports,
            final(self).stats == old(self).stats,
            final(self).cava_skip == old(self).cava_skip,
            final(self).cava_deferred == old(self).cava_deferred,
            final(self).last_mpd_update == old(self).last_mpd_update,
    {
        self.workers.push(worker);
    }

    /// Takes note of the analyser, which was started or could not be. If it was, its worker is
    /// taken note of, too; if not, it is tried again later. Returns whether the worker is to be
    /// started.
    pub fn cava_started(&mut self, ok: bool) -> (r: bool)
        ensures
            r == ok,
            final(self).readers() == after_start(old(self).readers(), ok),
            final(self).same_settings(*old(self)),
            final(self).supports == old(self).supports,
            final(self).stats == old(self).stats,
            final(self).cava_skip == old(self).cava_skip,
            final(self).last_mpd_update == old(self).last_mpd_update,
    {
        self.cava_deferred = !ok;
        if ok {
            self.workers.push(Worker::Cava);
        }
        ok
    }

    /// Whether the analyser is yet to be started, and the workers.
    pub open spec fn readers(self) -> Readers {
        Readers { deferred: self.cava_deferred, workers: self.workers@ }
    }

    /// What to do in a turn of the main loop, by which of the workers have ended. Those are
    /// forgotten.
    pub fn turn(&mut self, finished: &Vec<bool>) -> (r: TurnStep)
        requires
            finished@.len() == old(self).workers@.len(),
        ensures
            final(self).workers@ == still_running(old(self).workers@, finished@),
            r == turn_step(old(self).readers(), finished@),
            final(self).same_settings(*old(self)),
            final(self).supports == old(self).supports,
            final(self).stats == old(self).stats,
            final(self).cava_skip == old(self).cava_skip,
            final(self).cava_deferred == old(self).cava_deferred,
            final(self).last_mpd_update == old(self).last_mpd_update,
    {
        let ghost was = self.workers@;
        let mut left: Vec<Worker> = Vec::new();
        let mut ended: Option<Worker> = None;
        let n: usize = self.workers.len();
        let mut i: usize = 0;
        while i < n
            invariant
                n == self.workers@.len(),
                n == finished@.len(),
                i <= n,
                self.workers@ == was,
                *self == *old(self),
                left@ == still_running(was.take(i as int), finished@.take(i as int)),
                ended == last_ended(was.take(i as int), finished@.take(i as int)),
            decreases n - i,
        {
            proof {
                let w = was.take(i + 1);
                let f = finished@.take(i + 1);
                assert(w.drop_last() =~= was.take(i as int));
                assert(f.drop_last() =~= finished@.take(i as int));
                assert(w.last() == was[i as int]);
                assert(f.last() == finished@[i as int]);
            }
            let w = self.workers[i];
            if finished[i] {
                ended = Some(w);
            } else {
                left.push(w);
            }
            i = i + 1;
        }
        assert(was.take(i as int) =~= was);
        assert(finished@.take(i as int) =~= finished@);
        self.workers = left;
        match ended {
            Some(w) => TurnStep::Stop(w),
            None => if self.cava_deferred {
                TurnStep::TryCava
            } else {
                TurnStep::Rest
            },
        }
    }

    /// The report that is due at the time `now`, if one is: a minute after the last. The counts
    /// then start anew.
    pub fn report_stats(&mut self, now: u64) -> (r: Option<HybridReport>)
        ensures
            ({
                let past = elapsed(old(self).stats.last_report, now);
                if past < STATS_INTERVAL_NS {
                    r is None && *final(self) == *old(self)
                } else {
                    &&& r == Some(
                        HybridReport {
                            counts: old(self).stats,
                            elapsed_ns: past,
                            uptime_secs: (elapsed(old(self).stats.start, now) / 1_000_000_000) as u64,
                        },
                    )
                    &&& *final(self) == (HybridBridge {
                        stats: no_counts(old(self).stats.start, now),
                        ..*old(self)
                    })
                }
            }),
    {
        let past: u64 = elapsed_ns(self.stats.last_report, now);
        if past < STATS_INTERVAL_NS {
            return None;
        }
        let up: u64 = elapsed_ns(self.stats.start, now);
        let report = HybridReport {
            counts: self.stats,
            elapsed_ns: past,
            uptime_secs: up / 1_000_000_000,
        };
        self.stats = fresh_counts(self.stats.start, now);
        Some(report)
    }

    /// Decides what to do with what was read of the analyser.
    pub fn take_frame(&mut self, read: &ReadResult) -> (r: FrameStep)
        ensures
            r == frame_step(read@, old(self).cava_skip.remaining),
            *final(self) == (HybridBridge {
                cava_skip: FrameSkip {
                    remaining: if r == FrameStep::Skip {
                        (old(self).cava_skip.remaining - 1) as u32
                    } else {
                        old(self).cava_skip.remaining
                    },
                    ..old(self).cava_skip
                },
                ..*old(self)
            }),
    {
        next_frame_step(&mut self.cava_skip, read)
    }

    /// Takes note of a frame of `size` bytes that the queue took or did not.
    pub fn frame_done(&mut self, sent: bool, size: usize)
        requires
            old(self).cava_skip.well_formed(),
            old(self).stats.cava_frames < u32::MAX,
            old(self).stats.bytes_sent + size <= usize::MAX,
        ensures
            final(self).cava_skip.well_formed(),
            *final(self) == (HybridBridge {
                cava_skip: if sent {
                    FrameSkip { count: 0, ..old(self).cava_skip }
                } else {
                    FrameSkip {
                        count: more_skipped(old(self).cava_skip.count),
                        remaining: more_skipped(old(self).cava_skip.count),
                    }
                },
                stats: Stats {
                    cava_frames: (old(self).stats.cava_frames + 1) as u32,
                    bytes_sent: (old(self).stats.bytes_sent + size) as usize,
                    ..old(self).stats
                },
                ..*old(self)
            }),
    {
        self.cava_skip.record(sent);
        self.stats.cava_frames = self.stats.cava_frames + 1;
        self.stats.bytes_sent = self.stats.bytes_sent + size;
    }

    /// Takes note of an update of the player that was made for the time `now` and took so long.
    pub fn mpd_updated(&mut self, now: u64, latency_ns: u64)
        requires
            old(self).stats.mpd_updates < u32::MAX,
            old(self).stats.mpd_latency_total_ns + latency_ns <= u64::MAX,
        ensures
            *final(self) == (HybridBridge {
                last_mpd_update: Some(now),
                stats: Stats {
                    mpd_updates: (old(self).stats.mpd_updates + 1) as u32,
                    mpd_latency_total_ns: (old(self).stats.mpd_latency_total_ns + latency_ns) as u64,
                    mpd_latency_max_ns: if latency_ns > old(self).stats.mpd_latency_max_ns {
                        latency_ns
                    } else {
                        old(self).stats.mpd_latency_max_ns
                    },
                    ..old(self).stats
                },
                ..*old(self)
            }),
    {
        self.last_mpd_update = Some(now);
        self.stats.mpd_updates = self.stats.mpd_updates + 1;
        self.stats.mpd_latency_total_ns = self.stats.mpd_latency_total_ns + latency_ns;
        if latency_ns > self.stats.mpd_latency_max_ns {
            self.stats.mpd_latency_max_ns = latency_ns;
        }
    }

    /// Takes note of a message of `size` bytes on the machine, which the queue took or did not.
    /// Returns the time to rest before the next one, in nanoseconds.
    pub fn sysinfo_updated(&mut self, sent: bool, size: usize) -> (r: u64)
        requires
            sent ==> old(self).stats.sysinfo_updates < u32::MAX,
            sent ==> old(self).stats.bytes_sent + size <= usize::MAX,
        ensures
            r == old(self).sysinfo_interval_ns,
            *final(self) == if sent {
                HybridBridge {
                    stats: Stats {
                        sysinfo_updates: (old(self).stats.sysinfo_updates + 1) as u32,
                        bytes_sent: (old(self).stats.bytes_sent + size) as usize,
                        ..old(self).stats
                    },
                    ..*old(self)
                }
            } else {
                *old(self)
            },
    {
        if sent {
            self.stats.sysinfo_updates = self.stats.sysinfo_updates + 1;
            self.stats.bytes_sent = self.stats.bytes_sent + size;
        }
        self.sysinfo_interval_ns
    }

    /// What to do with a message of the device. A command is counted, known or not.
    pub fn process_command(&mut self, m: &WireMessage) -> (r: CommandStep)
        requires
            is_command(*m) ==> old(self).stats.commands < u32::MAX,
        ensures
            r@ == command_step(*m, old(self).supports.mpd),
            *final(self) == if is_command(*m) {
                HybridBridge {
                    stats: Stats {
                        commands: (old(self).stats.commands + 1) as u32,
                        ..old(self).stats
                    },
                    ..*old(self)
                }
            } else {
                *old(self)
            },
    {
        if !same_text(m.t.as_str(), "cmd") {
            return CommandStep::NoCommand;
        }
        match &m.content {
            None => CommandStep::NoCommand,
            Some(c) => {
                self.stats.commands = self.stats.commands + 1;
                let action = c.action.as_str();
                if same_text(action, "exec") {
                    match &c.parameters {
                        Some(p) => match &p.name {
                            Some(n) => CommandStep::Exec(n.as_str().to_owned()),
                            None => CommandStep::Ignore,
                        },
                        None => CommandStep::Ignore,
                    }
                } else if !is_player_action(action) {
                    CommandStep::Ignore
                } else if self.supports.mpd {
                    CommandStep::Mpd
                } else {
                    CommandStep::NotSupported
                }
            },
        }
    }
}

/// An analyser that could not be started is tried in every turn until the first success, and never
/// again after it. Until then it has no worker, and from then on it has one.
pub proof fn law_deferred_start(r: Readers, outcomes: Seq<bool>)
    requires
        r.deferred,
        !r.workers.contains(Worker::Cava),
    ensures
        ({
            let after = after_turns(r, outcomes);
            let tried = turn_step(after, none_ended(after)) == TurnStep::TryCava;
            &&& tried <==> forall|i: int| 0 <= i < outcomes.len() ==> !outcomes[i]
            &&& tried ==> after == r
            &&& !tried ==> after == after_start(r, true)
        }),
    decreases outcomes.len(),
{
    let after = after_turns(r, outcomes);
    law_none_ended(after.workers, none_ended(after));
    if outcomes.len() > 0 {
        let t = outcomes.drop_last();
        law_deferred_start(r, t);
        let before = after_turns(r, t);
        law_none_ended(before.workers, none_ended(before));
        assert(forall|i: int| 0 <= i < t.len() ==> t[i] == outcomes[i]);
        if forall|i: int| 0 <= i < outcomes.len() ==> !outcomes[i] {
            assert(!outcomes[outcomes.len() - 1]);
        }
    }
}

/// The bridge leaves with 1 exactly if the line could not be opened or the device did not answer,
/// and with 0 after its loop, whether a worker has ended or a signal came. Parts are started only
/// for a device that answered.
pub proof fn law_exit_codes(
    before: HybridBridge,
    after: HybridBridge,
    event: HybridEvent,
    sysinfo: bool,
    step: HybridStep,
)
    requires
        before.run_follows(after, event, sysinfo, step),
    ensures
        step == HybridStep::Exit(1) <==> event == HybridEvent::Connected(false) || event
            == HybridEvent::NoAnswer,
        step == HybridStep::Exit(0) <==> event is Ended,
        step is Launch <==> event is Answered,
        step is Exit ==> after == before,
{
}

/// A device that does not use the player cannot command it.
pub proof fn law_no_player_no_command(m: WireMessage)
    ensures
        !(command_step(m, false) is Mpd),
        command_step(m, true) is Mpd <==> command_step(m, false) is NotSupported,
{
}

/// Every action that is handed to the player is one that its bridge knows.
pub proof fn law_player_actions_are_known(
    bridge: MpdBridge,
    action: Seq<char>,
    params: Option<Params>,
    now: u64,
)
    requires
        player_action(action),
        bridge.client,
    ensures
        !(plan_of(bridge, action, params, now) is Unknown),
{
}

// ---------------------------------------------------------------------------
// Watching the player
// ---------------------------------------------------------------------------

/// What to do in a turn of the worker that watches the player.
#[derive(Debug, Clone, Copy, PartialEq, Eq, Structural)]
pub enum CheckStep {
    /// Try to reach the player.
    Connect,
    /// See whether an update is due.
    Go,
    /// Rest for so many nanoseconds, then begin anew.
    Rest(u64),
    /// Build the message.
    Update,
    /// Send the message.
    Send,
}

/// What the worker that watches the player remembers.
#[derive(Debug)]
pub struct MpdChecker {
    pub send_initial: bool,
    pub last_reconnect: Option<u64>,
    pub last_state: Option<String>,
    pub last_title: Option<String>,
}

/// A try to reach the player is allowed at the time `now`.
pub open spec fn retry_allowed(last: Option<u64>, now: u64) -> bool {
    match last {
        Some(t) => elapsed(t, now) >= MPD_RECONNECT_NS,
        None => true,
    }
}

/// An update is due at the time `now`.
pub open spec fn update_due(last: Option<u64>, interval: u64, now: u64) -> bool {
    match last {
        Some(t) => elapsed(t, now) >= interval,
        None => true,
    }
}

/// The time until the next update, but not less than the shortest rest.
pub open spec fn rest_before(last: Option<u64>, interval: u64, now: u64) -> u64 {
    let past = match last {
        Some(t) => elapsed(t, now),
        None => 0,
    };
    let remaining = interval - past;
    if remaining < SHORTEST_REST_NS {
        SHORTEST_REST_NS
    } else {
        remaining as u64
    }
}

/// What is told of a new state.
pub open spec fn state_note(prev: Option<Seq<char>>, cur: Option<Seq<char>>) -> Seq<Seq<char>> {
    match (prev, cur) {
        (Some(p), Some(c)) if p != c => seq!["MPD: "@ + p + "->"@ + c],
        _ => Seq::empty(),
    }
}

/// The beginning of a title.
pub open spec fn shown_title(title: Seq<char>) -> Seq<char> {
    if title.len() <= SHOWN_TITLE {
        title
    } else {
        title.take(SHOWN_TITLE as int)
    }
}

/// What is told of a new title.
pub open spec fn title_note(prev: Option<Seq<char>>, cur: Option<Seq<char>>) -> Seq<Seq<char>> {
    match (prev, cur) {
        (Some(p), Some(c)) if p != c && c.len() > 0 => seq![
            "MPD: track=\""@ + shown_title(c) + "\""@,
        ],
        _ => Seq::empty(),
    }
}

/// What `serde_json` reads in a text: of the value of its member `object`, the texts of the two
/// members. Nothing, if the text is no JSON or has no such member; nothing for a member that is
/// not there or holds no text.
pub uninterp spec fn json_members(
    json: Seq<char>,
    object: Seq<char>,
    first: Seq<char>,
    second: Seq<char>,
) -> Option<(Option<Seq<char>>, Option<Seq<char>>)>;

/// Two texts that may be missing, by their views.
pub open spec fn pair_view(p: Option<(Option<String>, Option<String>)>) -> Option<
    (Option<Seq<char>>, Option<Seq<char>>),
> {
    match p {
        Some(t) => Some((opt_view(t.0), opt_view(t.1))),
        None => None,
    }
}

/// Parses a text with `serde_json::from_str` and looks up, in the member `object`, the texts of
/// two members. The result is given a name. Of a message that shows the state of the player it is
/// the state and the title that the message was made with: `serde_json` undoes the escapes of a
/// JSON string.
#[verifier::external_body]
fn read_members(json: &str, object: &str, first: &str, second: &str) -> (r: Option<
    (Option<String>, Option<String>),
>)
    ensures
        pair_view(r) == json_members(json@, object@, first@, second@),
        object@ == "d"@ && first@ == "state"@ && second@ == "title"@ ==> forall|d: StateData|
            json@ == #[trigger] state_message(d.members()) ==> pair_view(r) == Some(
                (Some(d.state@), Some(d.title@)),
            ),
{
    let v: serde_json::Value = serde_json::from_str(json).ok()?;
    let d = v.get(object)?;
    let a = d.get(first).and_then(serde_json::Value::as_str).map(String::from);
    let b = d.get(second).and_then(serde_json::Value::as_str).map(String::from);
    Some((a, b))
}

fn differ(prev: &Option<String>, cur: &Option<String>) -> (r: bool)
    ensures
        r == (prev is Some && cur is Some && prev->0@ != cur->0@),
{
    match prev {
        Some(p) => match cur {
            Some(c) => !same_text(p.as_str(), c.as_str()),
            None => false,
        },
        None => false,
    }
}

fn title_start(title: &str) -> (r: String)
    ensures
        r@ == shown_title(title@),
{
    let v = to_chars(title);
    if v.len() <= SHOWN_TITLE {
        let n: usize = v.len();
        assert(v@.subrange(0, n as int) =~= title@);
        text_of(&v, 0, n)
    } else {
        assert(v@.subrange(0, SHOWN_TITLE as int) =~= title@.take(SHOWN_TITLE as int));
        text_of(&v, 0, SHOWN_TITLE)
    }
}

impl MpdChecker {
    /// Nothing was sent yet.
    pub fn new() -> (r: MpdChecker)
        ensures
            r.send_initial,
            r.last_reconnect is None,
            r.last_state is None,
            r.last_title is None,
    {
        MpdChecker { send_initial: true, last_reconnect: None, last_state: None, last_title: None }
    }

    /// Begins a turn at the time `now`.
    pub fn begin(&mut self, now: u64, connected: bool) -> (r: CheckStep)
        ensures
            r == if connected {
                CheckStep::Go
            } else if retry_allowed(old(self).last_reconnect, now) {
                CheckStep::Connect
            } else {
                CheckStep::Rest(BEFORE_RETRY_NS)
            },
            *final(self) == (MpdChecker {
                last_reconnect: if r == CheckStep::Connect {
                    Some(now)
                } else {
                    old(self).last_reconnect
                },
                ..*old(self)
            }),
    {
        if connected {
            return CheckStep::Go;
        }
        let allow = match self.last_reconnect {
            Some(t) => elapsed_ns(t, now) >= MPD_RECONNECT_NS,
            None => true,
        };
        if allow {
            self.last_reconnect = Some(now);
            CheckStep::Connect
        } else {
            CheckStep::Rest(BEFORE_RETRY_NS)
        }
    }

    /// Goes on after a try to reach the player. If it was reached, an update is owed.
    pub fn connected(&mut self, ok: bool) -> (r: CheckStep)
        ensures
            r == if ok {
                CheckStep::Go
            } else {
                CheckStep::Rest(AFTER_FAILURE_NS)
            },
            *final(self) == (MpdChecker {
                send_initial: old(self).send_initial || ok,
                ..*old(self)
            }),
    {
        if ok {
            self.send_initial = true;
            CheckStep::Go
        } else {
            CheckStep::Rest(AFTER_FAILURE_NS)
        }
    }

    /// Whether an update is due at the time `now`, or owed.
    pub fn due(&mut self, last_update: Option<u64>, interval: u64, now: u64) -> (r: CheckStep)
        ensures
            r == if update_due(last_update, interval, now) || old(self).send_initial {
                CheckStep::Update
            } else {
                CheckStep::Rest(rest_before(last_update, interval, now))
            },
            *final(self) == (MpdChecker { send_initial: false, ..*old(self) }),
    {
        let past: Option<u64> = match last_update {
            Some(t) => Some(elapsed_ns(t, now)),
            None => None,
        };
        let due = match past {
            Some(p) => p >= interval,
            None => true,
        };
        if due || self.send_initial {
            self.send_initial = false;
            return CheckStep::Update;
        }
        let remaining: u64 = match past {
            Some(p) => interval - p,
            None => interval,
        };
        CheckStep::Rest(
            if remaining < SHORTEST_REST_NS {
                SHORTEST_REST_NS
            } else {
                remaining
            },
        )
    }

    /// Goes on after the message was built, or could not be.
    pub fn built(ok: bool) -> (r: CheckStep)
        ensures
            r == if ok {
                CheckStep::Send
            } else {
                CheckStep::Rest(NO_MESSAGE_NS)
            },
    {
        if ok {
            CheckStep::Send
        } else {
            CheckStep::Rest(NO_MESSAGE_NS)
        }
    }

    /// Goes on after the message was sent: the next turn begins after the interval.
    pub fn sent(interval: u64) -> (r: CheckStep)
        ensures
            r == CheckStep::Rest(interval),
    {
        CheckStep::Rest(interval)
    }

    /// What is to be told of a message whose state and title are known, after the one before it.
    pub fn note_change(&mut self, state: Option<String>, title: Option<String>) -> (r: Vec<String>)
        ensures
            views(r@) == state_note(opt_view(old(self).last_state), opt_view(state)) + title_note(
                opt_view(old(self).last_title),
                opt_view(title),
            ),
            final(self).last_state == state,
            final(self).last_title == title,
            final(self).send_initial == old(self).send_initial,
            final(self).last_reconnect == old(self).last_reconnect,
    {
        let mut notes: Vec<String> = Vec::new();
        let ghost a = state_note(opt_view(self.last_state), opt_view(state));
        let ghost b = title_note(opt_view(self.last_title), opt_view(title));
        if differ(&self.last_state, &state) {
            if let (Some(p), Some(c)) = (&self.last_state, &state) {
                let mut s = joined("MPD: ", p.as_str());
                s.append("->");
                s.append(c.as_str());
                notes.push(s);
            }
        }
        assert(views(notes@) =~= a);
        if differ(&self.last_title, &title) {
            if let Some(c) = &title {
                proof {
                    reveal_strlit("");
                    assert(c@.len() == 0 ==> c@ =~= ""@);
                }
                if !same_text(c.as_str(), "") {
                    let shown = title_start(c.as_str());
                    let mut s = joined("MPD: track=\"", shown.as_str());
                    s.append("\"");
                    notes.push(s);
                }
            }
        }
        assert(views(notes@) =~= a + b);
        self.last_state = state;
        self.last_title = title;
        notes
    }

    /// What is to be told of a message that goes to the device, after the one before it.
    pub fn take_message(&mut self, json: &str) -> (r: Vec<String>)
        ensures
            match json_members(json@, "d"@, "state"@, "title"@) {
                None => r@.len() == 0 && *final(self) == *old(self),
                Some(p) => {
                    &&& views(r@) == state_note(opt_view(old(self).last_state), p.0) + title_note(
                        opt_view(old(self).last_title),
                        p.1,
                    )
                    &&& opt_view(final(self).last_state) == p.0
                    &&& opt_view(final(self).last_title) == p.1
                    &&& final(self).send_initial == old(self).send_initial
                    &&& final(self).last_reconnect == old(self).last_reconnect
                },
            },
            forall|d: StateData|
                json@ == #[trigger] state_message(d.members()) ==> {
                    &&& views(r@) == state_note(opt_view(old(self).last_state), Some(d.state@))
                        + title_note(opt_view(old(self).last_title), Some(d.title@))
                    &&& opt_view(final(self).last_state) == Some(d.state@)
                    &&& opt_view(final(self).last_title) == Some(d.title@)
                },
    {
        match read_members(json, "d", "state", "title") {
            None => Vec::new(),
            Some((state, title)) => self.note_change(state, title),
        }
    }
}

/// Two tries to reach the player lie at least five seconds apart.
pub proof fn law_tries_are_apart(first: u64, second: u64)
    requires
        retry_allowed(Some(first), second),
    ensures
        second >= first + MPD_RECONNECT_NS,
{
}

// ---------------------------------------------------------------------------
// Rests
// ---------------------------------------------------------------------------

/// The next part of a rest.
pub open spec fn rest_part(remaining: u64) -> u64 {
    if remaining < REST_PART_NS {
        remaining
    } else {
        REST_PART_NS
    }
}

/// The next part of a rest of which so much remains, in nanoseconds, unless it is over.
pub fn sleep_check(remaining: u64) -> (r: Option<u64>)
    ensures
        r == if remaining == 0 {
            None
        } else {
            Some(rest_part(remaining))
        },
        r matches Some(part) ==> 0 < part <= remaining,
{
    if remaining == 0 {
        None
    } else if remaining < REST_PART_NS {
        Some(remaining)
    } else {
        Some(REST_PART_NS)
    }
}

/// The parts of a rest, added up.
pub open spec fn rested(remaining: u64) -> nat
    decreases remaining,
{
    if remaining == 0 {
        0
    } else {
        rest_part(remaining) as nat + rested((remaining - rest_part(remaining)) as u64)
    }
}

/// The parts of a rest make the whole of it.
pub proof fn law_rest_is_whole(total: u64)
    ensures
        rested(total) == total,
    decreases total,
{
    if total > 0 {
        law_rest_is_whole((total - rest_part(total)) as u64);
    }
}

} // verus!
