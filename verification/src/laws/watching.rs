//! What holds of the watcher.
use crate::cava_bridge::{message_of, SpectrumView};
use crate::cava_manager::CavaFormat;
use crate::config_manager::{analyser_format, env_bars};
use crate::cooldown::{after_answer, pause_after, Cooldown};
use crate::device_identifier::{DeviceFormat, DeviceId, DeviceType};
use crate::devices::{
    acm_only, candidate_list, descending, distinct, is_acm, law_distinct, marked_only, text_before,
};
use crate::laws::text::law_found_only_there;
use crate::pieces::occurs_at;
use crate::text::{dec, law_dec_round_trip, lower, parse_int, views};
use crate::watcher::{
    active_device, args_after, bridge_env, bridge_places, bridge_step, cava_id, identified_text,
    in_grace, is_tty_acm, law_bridge_is_told, root_of, stop_step, walk, with_one, Active, BridgeEvent,
    BridgeStep, Cleanup, CleanupEvent, CleanupStep, DeviceEvent, DeviceStep, NewDevice, PollEvent,
    PollStep, PollTurn, WatchEvent, WatchStep, WatchTurn, Watcher, WatcherArgs,
};
use vstd::prelude::*;
use vstd::seq_lib::*;
use vstd::string::*;

verus! {

// ---------------------------------------------------------------------------
// What a bridge is told
// ---------------------------------------------------------------------------

proof fn lemma_variable_names()
    ensures
        "DEVICE_PATH"@.len() == 11,
        "MCUB_DEVICE_FORMAT"@.len() == 18 && "MCUB_DEVICE_FORMAT"@[5] == 'D',
        "MCUB_SPECTRUM_BARS"@.len() == 18 && "MCUB_SPECTRUM_BARS"@[5] == 'S',
        "MCUB_HAS_SYSINFO"@.len() == 16,
        "json"@.len() == 4,
        "binary"@.len() == 6,
        "ascii"@.len() == 5,
{
    reveal_strlit("DEVICE_PATH");
    reveal_strlit("MCUB_DEVICE_FORMAT");
    reveal_strlit("MCUB_SPECTRUM_BARS");
    reveal_strlit("MCUB_HAS_SYSINFO");
    reveal_strlit("json");
    reveal_strlit("binary");
    reveal_strlit("ascii");
}

/// The environment of a bridge holds what the device said of itself, and nothing else: its path, its
/// format, the number of its bars exactly if it gave one, and the mark for the machine exactly if it
/// wants to be told of it.
pub proof fn law_environment(id: DeviceId, path: Seq<char>)
    ensures
        ({
            let env = bridge_env(id, path);
            &&& env.len() == 2 + (if id.spectrum_bars is Some { 1int } else { 0 }) + (
            if id.has_sysinfo { 1int } else { 0 })
            &&& env.contains(("DEVICE_PATH"@, path))
            &&& env.contains(("MCUB_DEVICE_FORMAT"@, "binary"@)) <==> id.format
                == DeviceFormat::Binary
            &&& env.contains(("MCUB_DEVICE_FORMAT"@, "json"@)) <==> id.format == DeviceFormat::Json
            &&& env.contains(("MCUB_HAS_SYSINFO"@, "1"@)) <==> id.has_sysinfo
            &&& forall|n: u32| #[trigger]
                env.contains(("MCUB_SPECTRUM_BARS"@, dec(n as nat))) <==> id.spectrum_bars == Some(n)
        }),
{
    lemma_variable_names();
    let env = bridge_env(id, path);
    assert(env[0] == ("DEVICE_PATH"@, path));
    assert(env[1] == ("MCUB_DEVICE_FORMAT"@, id.format.text()));
    if id.has_sysinfo {
        assert(env[env.len() - 1] == ("MCUB_HAS_SYSINFO"@, "1"@));
    }
    assert forall|n: u32| #[trigger]
        env.contains(("MCUB_SPECTRUM_BARS"@, dec(n as nat))) <==> id.spectrum_bars == Some(n) by {
        law_dec_round_trip(n as int);
        if let Some(k) = id.spectrum_bars {
            law_dec_round_trip(k as int);
            assert(env[2] == ("MCUB_SPECTRUM_BARS"@, dec(k as nat)));
        }
        if env.contains(("MCUB_SPECTRUM_BARS"@, dec(n as nat))) {
            let i = choose|i: int|
                0 <= i < env.len() && env[i] == ("MCUB_SPECTRUM_BARS"@, dec(n as nat));
            assert(i == 2);
            assert(id.spectrum_bars is Some);
        }
    }
}

/// A device that wants its spectrum in binary form gets it so, and no other does; the analyser writes
/// in the form that suits it.
pub proof fn law_format_reaches_the_device(id: DeviceId, values: Seq<i32>, header: u8)
    ensures
        message_of(id.format.text(), values, header) is Binary <==> id.format == DeviceFormat::Binary,
        message_of(id.format.text(), values, header) is Json <==> id.format == DeviceFormat::Json,
        CavaFormat::named(analyser_format(id.format.text())) == CavaFormat::Binary <==> id.format
            == DeviceFormat::Binary,
{
    lemma_variable_names();
}

/// What is told of a device that gave its name holds its kind, that it is binary exactly if it is, and
/// its bars exactly if it gave them.
pub proof fn law_identified(id: DeviceId)
    ensures
        ({
            let t = "Identified: "@ + id.device_type.text();
            &&& id.format == DeviceFormat::Json && id.spectrum_bars is None ==> identified_text(id) == t
            &&& id.format == DeviceFormat::Binary && id.spectrum_bars is None ==> identified_text(id)
                == t + " (format=binary)"@
            &&& id.spectrum_bars matches Some(n) ==> identified_text(id) == (if id.format
                == DeviceFormat::Binary {
                t + " (format=binary)"@
            } else {
                t
            }) + " (bars="@ + dec(n as nat) + ")"@
        }),
{
    reveal_strlit("");
    let t = "Identified: "@ + id.device_type.text();
    assert(t + ""@ =~= t);
    assert(t + " (format=binary)"@ + ""@ =~= t + " (format=binary)"@);
    if let Some(n) = id.spectrum_bars {
        let b = " (bars="@ + dec(n as nat) + ")"@;
        assert(t + b =~= t + " (bars="@ + dec(n as nat) + ")"@);
        assert(t + " (format=binary)"@ + b =~= t + " (format=binary)"@ + " (bars="@ + dec(n as nat)
            + ")"@);
    }
}

/// The program of the bridge is looked for beside that of the watcher before it is looked for
/// anywhere else.
pub proof fn law_places(dir: Seq<char>, root: Seq<char>)
    ensures
        bridge_places(Some(dir), root).len() == 5,
        bridge_places(Some(dir), root)[0] == crate::paths::join_path(dir, "mcub-bridge-rust"@),
        bridge_places(Some(dir), root).skip(1) == bridge_places(None, root),
        bridge_places(None, root)[0] == "/usr/local/bin/mcub-bridge-rust"@,
        bridge_places(None, root)[1] == "./mcub-bridge-rust"@,
        bridge_places(None, root)[2] == crate::paths::join_path(
            root,
            "target/release/mcub-bridge-rust"@,
        ),
        bridge_places(None, root)[3] == crate::paths::join_path(
            root,
            "target/debug/mcub-bridge-rust"@,
        ),
{
    assert(bridge_places(Some(dir), root).skip(1) =~= bridge_places(None, root));
}

/// The root of the project is what the environment says, unless it says nothing; then it is the
/// directory that is known, or the current one.
pub proof fn law_root(env: Seq<char>, above: Option<Seq<char>>, dir: Seq<char>)
    ensures
        env.len() > 0 ==> root_of(Some(env), above) == env,
        env.len() == 0 ==> root_of(Some(env), above) == root_of(None, above),
        root_of(None, Some(dir)) == dir,
        root_of(None, None) == "."@,
{
}

// ---------------------------------------------------------------------------
// A bridge is started
// ---------------------------------------------------------------------------

/// A bridge is started in this order: an analyser that still runs is ended, for a device that wants
/// the spectrum alone; the program is looked for; the process is made; and it runs once it has
/// settled. It fails exactly if one of the last three does.
pub proof fn law_bridge_start(device_type: DeviceType, event: BridgeEvent)
    ensures
        ({
            let step = bridge_step(device_type, event);
            &&& step is ClearCava <==> event == BridgeEvent::Wanted && device_type
                == DeviceType::Cava
            &&& step == BridgeStep::Search <==> event == BridgeEvent::CavaCleared || (event
                == BridgeEvent::Wanted && device_type != DeviceType::Cava)
            &&& step == BridgeStep::Spawn <==> event == BridgeEvent::Searched(true)
            &&& step is Settle <==> event == BridgeEvent::Spawned(true)
            &&& step == BridgeStep::Running <==> event == BridgeEvent::Settled(true)
            &&& step == BridgeStep::Failed <==> event == BridgeEvent::Searched(false) || event
                == BridgeEvent::Spawned(false) || event == BridgeEvent::Settled(false)
            &&& step matches BridgeStep::ClearCava(ms) ==> ms == 1000
            &&& step matches BridgeStep::Settle(ms) ==> ms == 1000
        }),
{
}

/// A new device is treated so: bridges that run are stopped first; it is asked, up to three times; the
/// bridge that is started is for what it said; and what is remembered as served is the device at its
/// path, with what it said.
pub proof fn law_new_device(
    before: Watcher,
    after: Watcher,
    device: NewDevice,
    device_after: NewDevice,
    event: DeviceEvent,
    step: DeviceStep,
)
    requires
        before.device_follows(after, device, device_after, event, step),
    ensures
        device_after.path == device.path,
        event == DeviceEvent::Found ==> {
            &&& step is StopBridges <==> before.active is Some || before.bridge
            &&& step == DeviceStep::Identify <==> before.active is None && !before.bridge
        },
        step is StopBridges ==> event == DeviceEvent::Found,
        event == DeviceEvent::Stopped ==> step == DeviceStep::Identify,
        event matches DeviceEvent::Answer(Some(id)) ==> step == DeviceStep::Start(id)
            && device_after.id == Some(id) && device_after.tried == device.tried,
        step matches DeviceStep::Start(id) ==> event == DeviceEvent::Answer(Some(id)),
        event == DeviceEvent::Answer(None) && device.tried < 3 ==> step is Rest && device_after.tried
            == device.tried + 1 && device_after.id == device.id,
        event == DeviceEvent::Rested ==> (step == DeviceStep::Identify <==> device.tried < 3),
        step == DeviceStep::Served <==> event == DeviceEvent::Started(true),
        event == DeviceEvent::Started(true) ==> {
            &&& after.active matches Some(a)
            &&& device.id matches Some(id)
            &&& a.device@ == device.path@
            &&& a.bridge_type == id.device_type
            &&& a.device_format == id.format
            &&& a.spectrum_bars == id.spectrum_bars
            &&& a.has_sysinfo == id.has_sysinfo
        },
        event != DeviceEvent::Started(true) ==> after.active == before.active,
        after.bridge == before.bridge && after.bridge_started_at == before.bridge_started_at,
        event == DeviceEvent::Started(false) ==> step == DeviceStep::NotServed(None),
{
}

/// A device that answered starts afresh, and nothing changes for the others; one that did not answer
/// counts one failure more, and is left alone exactly if that makes three or more.
pub proof fn law_answers_are_remembered(
    m: Map<Seq<char>, Cooldown>,
    path: Seq<char>,
    other: Seq<char>,
    c: Cooldown,
)
    requires
        c.failures < u32::MAX,
    ensures
        ({
            let after = after_answer(m, path);
            &&& after.contains_key(path) ==> after[path].failures == 0 && after[path].skip_cycles == 0
                && after[path].skip_remaining == 0
            &&& after.contains_key(other) <==> m.contains_key(other)
            &&& other != path && m.contains_key(other) ==> after[other] == m[other]
        }),
        c.after_failure().failures == c.failures + 1,
        pause_after(c) is Some <==> c.failures + 1 >= 3,
        pause_after(c) matches Some(turns) ==> turns == c.after_failure().skip_remaining && 3 <= turns
            <= 30,
        pause_after(c) is None ==> c.after_failure().skip_remaining == c.skip_remaining,
{
}

// ---------------------------------------------------------------------------
// The bridge that runs
// ---------------------------------------------------------------------------

/// A bridge has eight seconds for its analyser to run.
pub proof fn law_grace(started: u64, now: u64)
    requires
        started <= now,
    ensures
        in_grace(Some(started), now) <==> now < started + 8_000_000_000,
        !in_grace(None, now),
{
}

/// Devices are looked for at once the first time, and then as soon as the interval of the settings, in
/// seconds, has gone by.
pub proof fn law_rescan(w: Watcher, last: u64, now: u64)
    requires
        w.last_rescan is None || (w.last_rescan == Some(last) && last <= now),
    ensures
        w.last_rescan is None ==> w.rescan_due(now),
        w.last_rescan is Some ==> (w.rescan_due(now) <==> now - last >= w.device_check_interval
            * 1_000_000_000),
{
}

/// The analyser that is started again is for the same device, in the same format, with as many bars.
pub proof fn law_analyser_again(a: Active)
    ensures
        cava_id(a).device_type == DeviceType::Cava,
        cava_id(a).format == a.device_format,
        cava_id(a).spectrum_bars == a.spectrum_bars,
        !cava_id(a).has_sysinfo,
{
}

/// Bridges are stopped in this order: the process of the bridge is killed exactly if there is one that
/// runs; it is reaped once it has ended, or after thirty looks; then every kind is told to stop by the
/// name of its program; then an analyser is ended exactly if one runs.
pub proof fn law_cleanup_steps(
    before: Watcher,
    after: Watcher,
    turn: Cleanup,
    turn_after: Cleanup,
    event: CleanupEvent,
    step: CleanupStep,
)
    requires
        before.cleanup_follows(after, turn, turn_after, event, step),
        turn.takes(event),
    ensures
        step is Kill <==> before.bridge && event == (CleanupEvent::Begin { ended: false }),
        step is ClearCava <==> event == CleanupEvent::Cava(true),
        step is Done <==> event == CleanupEvent::Cava(false) || event == CleanupEvent::Cleared,
        step is Reap <==> event is Waited && (event == (CleanupEvent::Waited { ended: true })
            || turn_after.waited >= 30),
        step is Rest <==> event == (CleanupEvent::Waited { ended: false }) && turn_after.waited < 30,
        step is AskCava <==> event is Told && turn_after.told >= 4,
        event is Waited ==> turn_after.waited == turn.waited + 1,
        event is Told ==> turn_after.told == turn.told + 1,
        step matches CleanupStep::Tell { kind, pattern } ==> {
            &&& pattern@ == "mcub-bridge-rust "@ + kind.text()
            &&& event is Begin || event is Reaped ==> kind == DeviceType::Mpd
            &&& event is Told && turn_after.told == 1 ==> kind == DeviceType::Cava
            &&& event is Told && turn_after.told == 2 ==> kind == DeviceType::Hybrid
            &&& event is Told && turn_after.told == 3 ==> kind == DeviceType::Sysinfo
        },
{
}

// ---------------------------------------------------------------------------
// Polling
// ---------------------------------------------------------------------------

/// A device is left alone this turn.
pub open spec fn left_alone(m: Map<Seq<char>, Cooldown>, device: Seq<char>) -> bool {
    m.contains_key(device) && m[device].skip_remaining > 0
}

/// The walk through the devices stops at the first that has the bridge or is not left alone. Every
/// device before it has one turn less to be left alone, and nothing changes for any other.
pub proof fn law_walk(
    active: Option<Seq<char>>,
    m: Map<Seq<char>, Cooldown>,
    devices: Seq<Seq<char>>,
    at: int,
)
    requires
        0 <= at <= devices.len(),
        devices.no_duplicates(),
    ensures
        ({
            let (stop, left) = walk(active, m, devices, at);
            &&& at <= stop <= devices.len()
            &&& forall|i: int|
                at <= i < stop ==> active != Some(#[trigger] devices[i]) && left_alone(m, devices[i])
                    && left.contains_key(devices[i]) && left[devices[i]] == (Cooldown {
                    skip_remaining: (m[devices[i]].skip_remaining - 1) as u32,
                    ..m[devices[i]]
                })
            &&& stop < devices.len() ==> active == Some(devices[stop]) || !left_alone(
                m,
                devices[stop],
            )
            &&& forall|d: Seq<char>|
                (forall|i: int| at <= i < stop ==> devices[i] != d) ==> (#[trigger] left.contains_key(d)
                    <==> m.contains_key(d)) && (m.contains_key(d) ==> left[d] == m[d])
        }),
    decreases devices.len() - at,
{
    let (stop, left) = walk(active, m, devices, at);
    if at < devices.len() && active != Some(devices[at]) && left_alone(m, devices[at]) {
        let d0 = devices[at];
        let m1 = m.insert(
            d0,
            Cooldown { skip_remaining: (m[d0].skip_remaining - 1) as u32, ..m[d0] },
        );
        law_walk(active, m1, devices, at + 1);
        assert(walk(active, m, devices, at) == walk(active, m1, devices, at + 1));
        assert(forall|i: int| at + 1 <= i < stop ==> devices[i] != d0);
        assert(left.contains_key(d0) <==> m1.contains_key(d0));
        assert forall|i: int| at <= i < stop implies active != Some(#[trigger] devices[i])
            && left_alone(m, devices[i]) && left.contains_key(devices[i]) && left[devices[i]] == (
        Cooldown { skip_remaining: (m[devices[i]].skip_remaining - 1) as u32, ..m[devices[i]] }) by {
            if i > at {
                assert(devices[i] != d0);
                assert(m1[devices[i]] == m[devices[i]]);
            }
        }
        if stop < devices.len() {
            assert(devices[stop] != d0);
        }
        assert forall|d: Seq<char>|
            (forall|i: int| at <= i < stop ==> devices[i] != d) implies (#[trigger] left.contains_key(d)
            <==> m.contains_key(d)) && (m.contains_key(d) ==> left[d] == m[d]) by {
            assert(devices[at] != d);
            assert(forall|i: int| at + 1 <= i < stop ==> devices[i] != d);
            assert(left.contains_key(d) <==> m1.contains_key(d));
        }
    }
}

/// Where the walk has stopped, the device that has the bridge is seen to, any other is asked, and
/// behind the last one the bridges are stopped exactly if some device is taken to have one.
pub proof fn law_where_the_walk_stops(active: Option<Seq<char>>, devices: Seq<Seq<char>>, at: int)
    requires
        0 <= at <= devices.len(),
    ensures
        ({
            let step = stop_step(active, devices, at);
            &&& step == PollStep::CheckHealth <==> at < devices.len() && active == Some(devices[at])
            &&& step == PollStep::Identify <==> at < devices.len() && active != Some(devices[at])
            &&& step == PollStep::StopBridges <==> at == devices.len() && active is Some
            &&& step == PollStep::Over <==> at == devices.len() && active is None
        }),
{
}

/// A device that gives its name is treated as new; one that does not is passed by, and the walk goes
/// on behind it. A turn in which the bridges are stopped leaves no device served.
pub proof fn law_polling(
    before: Watcher,
    after: Watcher,
    turn: PollTurn,
    turn_after: PollTurn,
    event: PollEvent,
    step: PollStep,
)
    requires
        before.poll_follows(after, turn, turn_after, event, step),
        views(turn.devices@).no_duplicates(),
        turn.at < turn.devices@.len(),
    ensures
        step == PollStep::HandleNew <==> event == PollEvent::Answer(true),
        event == PollEvent::Answer(true) ==> turn_after.at == turn.at,
        event == PollEvent::Answer(false) ==> turn_after.at > turn.at,
        event == PollEvent::Begin ==> turn_after.at >= turn.at,
        step == PollStep::StopBridges ==> before.active is Some && after.active is None,
        step != PollStep::StopBridges ==> after.active == before.active,
        step == PollStep::CheckHealth ==> active_device(before.active) == Some(
            turn.devices@[turn_after.at as int]@,
        ),
        step == PollStep::Identify ==> turn_after.at < turn.devices@.len() && active_device(
            before.active,
        ) != Some(turn.devices@[turn_after.at as int]@),
        after.bridge == before.bridge,
{
    let list = views(turn.devices@);
    let active = active_device(before.active);
    let device = list[turn.at as int];
    let c = crate::cooldown::entry_or_fresh(before.cooldowns@, device);
    law_walk(active, before.cooldowns@, list, turn.at as int);
    law_walk(active, before.cooldowns@.insert(device, c.after_failure()), list, turn.at + 1);
}

// ---------------------------------------------------------------------------
// Watching
// ---------------------------------------------------------------------------

/// The watcher looks for devices when it starts, and when nothing happens, none is served, and the
/// time has come. It tries a device exactly as long as some are left in the list, then sees to those
/// that went, then waits.
pub proof fn law_watch_steps(
    before: Watcher,
    after: Watcher,
    turn: WatchTurn,
    event: WatchEvent,
    now: u64,
    step: WatchStep,
)
    requires
        before.watch_follows(after, turn, event, now, step),
    ensures
        step == WatchStep::Scan <==> event is Begin || (event is Quiet && before.active is None
            && before.rescan_due(now)),
        step == WatchStep::CheckHealth <==> event is Quiet && before.active is Some,
        !(event is Begin) && !(event is Quiet) ==> {
            &&& step == WatchStep::Try <==> turn.at < turn.devices@.len()
            &&& step is Gone <==> turn.at >= turn.devices@.len() && turn.gone < turn.removed@.len()
            &&& step == WatchStep::Wait <==> turn.at >= turn.devices@.len() && turn.gone
                >= turn.removed@.len()
        },
        step matches WatchStep::Gone(had) ==> {
            let device = turn.removed@[turn.gone as int]@;
            &&& had <==> active_device(before.active) == Some(device)
            &&& had ==> after.active is None
            &&& !had ==> after.active == before.active
        },
        !(step is Gone) ==> after.active == before.active,
        after.bridge == before.bridge,
        step == WatchStep::Scan && event is Quiet ==> after.last_rescan == Some(now),
{
}

/// Devices that were found, or that came, are tried from the first on, each once; after one that is
/// served none is left. A list of devices that came is tried in descending order.
pub proof fn law_watch_turns(before: WatchTurn, after: WatchTurn, event: WatchEvent)
    requires
        after.follows(before, event),
        before.takes(event),
    ensures
        event matches WatchEvent::Scanned(list) ==> after.devices == list && after.at == 0
            && !after.plugged && after.removed@.len() == 0,
        event matches WatchEvent::Tried(true) ==> after.at == after.devices@.len(),
        event matches WatchEvent::Tried(false) ==> after.at == before.at + 1,
        event is Tried ==> after.devices == before.devices && after.removed == before.removed
            && after.gone == before.gone && after.plugged == before.plugged,
        event is Parted ==> after.gone == before.gone + 1 && after.at == before.at && after.devices
            == before.devices && after.removed == before.removed,
        event matches WatchEvent::Plugs(p) ==> after.plugged && after.at == 0 && after.gone == 0
            && after.removed == p.removed && descending(views(after.devices@)) && views(
            after.devices@,
        ).to_multiset() == views(p.pending@).to_multiset(),
        event is Begin || event is Quiet ==> after == before,
{
    if event is Parted {
        assert(before.gone < before.removed.len());
    }
    if event is Tried {
        assert(before.at < before.devices.len());
    }
}

/// A device counts by the name of its node; one that is announced stands behind those that were
/// announced before.
pub proof fn law_plugs(list: Seq<Seq<char>>, node: Seq<char>)
    ensures
        is_tty_acm(node) <==> exists|a: Seq<char>, b: Seq<char>| node == #[trigger] (a + "ttyACM"@ + b),
        list.contains(node) ==> with_one(list, node) == list,
        !list.contains(node) ==> with_one(list, node).last() == node && with_one(
            list,
            node,
        ).drop_last() == list,
{
    law_found_only_there(node, "ttyACM"@);
    assert(list.push(node).drop_last() =~= list);
}

/// What is told to differ in nothing but what is remembered of devices that do not answer, does so.
pub proof fn law_nothing_else_differs(a: Watcher, b: Watcher)
    requires
        a.same_but_cooldowns(b),
    ensures
        a == (Watcher { cooldowns: a.cooldowns, ..b }),
{
}

// ---------------------------------------------------------------------------
// The order of devices
// ---------------------------------------------------------------------------

/// A text comes before another exactly as their first difference says: the smaller character first,
/// and the shorter text before one that goes on.
pub proof fn law_order(common: Seq<char>, c: char, x: Seq<char>, d: char, y: Seq<char>)
    requires
        (c as int) < (d as int),
    ensures
        text_before(common + seq![c] + x, common + seq![d] + y),
        !text_before(common + seq![d] + y, common + seq![c] + x),
        text_before(common, common + seq![c] + x),
        !text_before(common, common),
    decreases common.len(),
{
    let a = common + seq![c] + x;
    let b = common + seq![d] + y;
    if common.len() == 0 {
        assert(a[0] == c && b[0] == d);
    } else {
        let t = common.drop_first();
        law_order(t, c, x, d, y);
        assert(a.drop_first() =~= t + seq![c] + x);
        assert(b.drop_first() =~= t + seq![d] + y);
        assert(a[0] == common[0] && b[0] == common[0]);
    }
}

/// A path may be that of a device of ours if `acm` stands in it, in capitals or not.
pub proof fn law_acm_paths(a: Seq<char>, b: Seq<char>, path: Seq<char>)
    ensures
        is_acm(a + "ACM"@ + b),
        is_acm(a + "acm"@ + b),
        is_acm(path) <==> exists|x: Seq<char>, y: Seq<char>| lower(path) == #[trigger] (x + "acm"@ + y),
{
    law_found_only_there(lower(path), "acm"@);
    reveal_strlit("ACM");
    reveal_strlit("acm");
    let n = a.len() as int;
    let p = lower(a + "ACM"@ + b);
    let q = lower(a + "acm"@ + b);
    assert(p.subrange(n, n + 3) =~= "acm"@);
    assert(q.subrange(n, n + 3) =~= "acm"@);
    assert(occurs_at(p, "acm"@, n));
    assert(occurs_at(q, "acm"@, n));
}

proof fn lemma_acm_kept(s: Seq<Seq<char>>, i: int)
    requires
        0 <= i < s.len(),
        is_acm(s[i]),
    ensures
        acm_only(s).contains(s[i]),
    decreases s.len(),
{
    let t = s.drop_last();
    if i < t.len() {
        lemma_acm_kept(t, i);
        let k = choose|k: int| 0 <= k < acm_only(t).len() && acm_only(t)[k] == t[i];
        assert(acm_only(s)[k] == s[i]);
    } else {
        assert(acm_only(s)[acm_only(s).len() - 1] == s[i]);
    }
}

proof fn lemma_marked_kept(s: Seq<Seq<char>>, marks: Seq<bool>, i: int)
    requires
        s.len() == marks.len(),
        0 <= i < s.len(),
        marks[i],
    ensures
        marked_only(s, marks).contains(s[i]),
    decreases s.len(),
{
    let t = s.drop_last();
    let f = marks.drop_last();
    let all = marked_only(s, marks);
    if i < t.len() {
        lemma_marked_kept(t, f, i);
        let k = choose|k: int| 0 <= k < marked_only(t, f).len() && marked_only(t, f)[k] == t[i];
        assert(all[k] == s[i]);
    } else {
        assert(all[all.len() - 1] == s[i]);
    }
}

/// Devices are gone through one by one: one that may not be ours, or that is not marked, is left out, one
/// that stood before is not taken again, and the others keep their order.
pub proof fn law_lists(s: Seq<Seq<char>>, marks: Seq<bool>, x: Seq<char>, mark: bool)
    requires
        s.len() == marks.len(),
    ensures
        acm_only(Seq::empty()).len() == 0,
        is_acm(x) ==> acm_only(s.push(x)) == acm_only(s).push(x),
        !is_acm(x) ==> acm_only(s.push(x)) == acm_only(s),
        marked_only(Seq::empty(), Seq::empty()).len() == 0,
        mark ==> marked_only(s.push(x), marks.push(mark)) == marked_only(s, marks).push(x),
        !mark ==> marked_only(s.push(x), marks.push(mark)) == marked_only(s, marks),
        distinct(Seq::empty()).len() == 0,
        s.contains(x) ==> distinct(s.push(x)) == distinct(s),
        !s.contains(x) ==> distinct(s.push(x)) == distinct(s).push(x),
{
    law_distinct(s);
    assert(s.push(x).drop_last() =~= s);
    assert(marks.push(mark).drop_last() =~= marks);
}

/// Every device that may be ours is found: one that the system lists by name and that may be ours is a
/// candidate, and so is each that was found otherwise, where the system lists none.
pub proof fn law_every_candidate(by_id: Seq<Seq<char>>, found: Seq<Seq<char>>, x: Seq<char>)
    ensures
        by_id.contains(x) && is_acm(x) ==> candidate_list(by_id, found).contains(x),
        acm_only(by_id).len() == 0 && found.contains(x) ==> candidate_list(by_id, found).contains(x),
        candidate_list(by_id, found).no_duplicates(),
{
    law_distinct(acm_only(by_id));
    law_distinct(found);
    if by_id.contains(x) && is_acm(x) {
        let i = choose|i: int| 0 <= i < by_id.len() && by_id[i] == x;
        lemma_acm_kept(by_id, i);
        assert(distinct(acm_only(by_id)).contains(x));
    }
    if acm_only(by_id).len() == 0 {
        assert(distinct(acm_only(by_id)).len() == 0);
    }
}

/// Every candidate that can be used is among the devices that are tried.
pub proof fn law_every_usable_device(
    list: Seq<Seq<char>>,
    usable: Seq<bool>,
    r: Seq<Seq<char>>,
    i: int,
)
    requires
        list.len() == usable.len(),
        r.to_multiset() == marked_only(list, usable).to_multiset(),
        0 <= i < list.len(),
        usable[i],
    ensures
        r.contains(list[i]),
{
    lemma_marked_kept(list, usable, i);
    marked_only(list, usable).to_multiset_ensures();
    r.to_multiset_ensures();
    assert(marked_only(list, usable).to_multiset().count(list[i]) > 0);
}

// ---------------------------------------------------------------------------
// The command line
// ---------------------------------------------------------------------------

/// The word asks for the version or for help.
pub open spec fn asks_to_be_told(word: Seq<char>) -> bool {
    word == "--version"@ || word == "--help"@ || word == "-h"@
}

proof fn lemma_switch_words()
    ensures
        "--status"@.len() == 8,
        "--cleanup"@.len() == 9 && "--cleanup"@[2] == 'c',
        "--no-wait-mpd"@.len() == 13,
        "--version"@.len() == 9 && "--version"@[2] == 'v',
        "--help"@.len() == 6,
        "-h"@.len() == 2,
{
    reveal_strlit("--status");
    reveal_strlit("--cleanup");
    reveal_strlit("--no-wait-mpd");
    reveal_strlit("--version");
    reveal_strlit("--help");
    reveal_strlit("-h");
}

proof fn lemma_switches(args: Seq<Seq<char>>, status: bool, cleanup: bool, no_wait_mpd: bool)
    requires
        forall|i: int| 0 <= i < args.len() ==> !asks_to_be_told(#[trigger] args[i]),
    ensures
        args_after(args, status, cleanup, no_wait_mpd) == (WatcherArgs::Run {
            status: status || args.contains("--status"@),
            cleanup: cleanup || args.contains("--cleanup"@),
            no_wait_mpd: no_wait_mpd || args.contains("--no-wait-mpd"@),
        }),
    decreases args.len(),
{
    lemma_switch_words();
    if args.len() > 0 {
        let rest = args.drop_first();
        let a = args[0];
        assert(!asks_to_be_told(a));
        assert forall|i: int| 0 <= i < rest.len() implies !asks_to_be_told(#[trigger] rest[i]) by {
            assert(rest[i] == args[i + 1]);
        }
        assert forall|w: Seq<char>| #[trigger] args.contains(w) <==> a == w || rest.contains(w) by {
            if args.contains(w) {
                let k = choose|k: int| 0 <= k < args.len() && args[k] == w;
                if k > 0 {
                    assert(rest[k - 1] == w);
                }
            }
            if rest.contains(w) {
                let k = choose|k: int| 0 <= k < rest.len() && rest[k] == w;
                assert(args[k + 1] == w);
            }
            if a == w {
                assert(args[0] == w);
            }
        }
        lemma_switches(rest, status || a == "--status"@, cleanup || a == "--cleanup"@, no_wait_mpd || a
            == "--no-wait-mpd"@);
    }
}

/// Each switch is on exactly if its word stands on the command line, wherever it stands, as long as
/// nothing asks for the version or for help.
pub proof fn law_switches(args: Seq<Seq<char>>)
    requires
        forall|i: int| 0 <= i < args.len() ==> !asks_to_be_told(#[trigger] args[i]),
    ensures
        args_after(args, false, false, false) == (WatcherArgs::Run {
            status: args.contains("--status"@),
            cleanup: args.contains("--cleanup"@),
            no_wait_mpd: args.contains("--no-wait-mpd"@),
        }),
{
    lemma_switches(args, false, false, false);
}

/// The first word that asks for the version or for help decides, whatever stands before and behind it.
pub proof fn law_first_question_decides(
    front: Seq<Seq<char>>,
    word: Seq<char>,
    rest: Seq<Seq<char>>,
    status: bool,
    cleanup: bool,
    no_wait_mpd: bool,
)
    requires
        forall|i: int| 0 <= i < front.len() ==> !asks_to_be_told(#[trigger] front[i]),
        asks_to_be_told(word),
    ensures
        ({
            let r = args_after(front + seq![word] + rest, status, cleanup, no_wait_mpd);
            &&& r == WatcherArgs::Version <==> word == "--version"@
            &&& r == WatcherArgs::Help <==> word == "--help"@ || word == "-h"@
        }),
    decreases front.len(),
{
    lemma_switch_words();
    let all = front + seq![word] + rest;
    if front.len() == 0 {
        assert(all[0] == word);
    } else {
        let t = front.drop_first();
        let a = front[0];
        assert(!asks_to_be_told(a));
        assert forall|i: int| 0 <= i < t.len() implies !asks_to_be_told(#[trigger] t[i]) by {
            assert(t[i] == front[i + 1]);
        }
        assert(all[0] == a);
        assert(all.drop_first() =~= t + seq![word] + rest);
        law_first_question_decides(
            t,
            word,
            rest,
            status || a == "--status"@,
            cleanup || a == "--cleanup"@,
            no_wait_mpd || a == "--no-wait-mpd"@,
        );
    }
}

/// The state of the watcher is told in six lines: the version, the device that is served and its kind,
/// or that there is none, how many are connected, and whether bridges run, as 1 or 0.
pub proof fn law_status(w: Watcher, version: Seq<char>, devices: nat, mpd: bool, cava: bool)
    ensures
        ({
            let l = w.status_lines(version, devices, mpd, cava);
            &&& l.len() == 6
            &&& l[0] == "MCUB WATCHER v"@ + version
            &&& w.active matches Some(a) ==> l[1] == "Active device: "@ + a.device@ && l[2]
                == "Active bridge: "@ + a.bridge_type.text()
            &&& w.active is None ==> l[1] == "Active device: "@ + "None"@ && l[2]
                == "Active bridge: "@ + "None"@
            &&& l[3] == "Connected devices: "@ + dec(devices)
            &&& (l[4].last() == '1' <==> mpd) && (l[4].last() == '0' <==> !mpd)
            &&& (l[5].last() == '1' <==> cava) && (l[5].last() == '0' <==> !cava)
        }),
{
    reveal_strlit("1");
    reveal_strlit("0");
    let l = w.status_lines(version, devices, mpd, cava);
    assert(l[4].last() == crate::watcher::digit(mpd)[0]);
    assert(l[5].last() == crate::watcher::digit(cava)[0]);
}

} // verus!
