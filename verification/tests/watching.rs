use mcub::config_manager::{get_cava_env_config, Config};
use mcub::cooldown::Cooldowns;
use mcub::device_identifier::{DeviceFormat, DeviceId, DeviceType};
use mcub::watcher::{
    bridge_message, bridge_plan, cleanup_cava_process, identified_message, parse_args, pattern_of,
    wait_for_mpd, BridgeEvent, BridgeStep, Cleanup, CleanupEvent, CleanupStep, ClearStep,
    DeviceEvent, DeviceStep, HealthStep, IdleStep, MpdWait, NewDevice, PlugEvent, Plugged,
    PollEvent, PollStep, PollTurn, WatchEvent, WatchStep, WatchTurn, Watcher, WatcherArgs,
};

const SECOND: u64 = 1_000_000_000;

fn list(words: &[&str]) -> Vec<String> {
    words.iter().map(|w| w.to_string()).collect()
}

fn id(device_type: DeviceType) -> DeviceId {
    DeviceId { device_type, format: DeviceFormat::Binary, spectrum_bars: Some(32), has_sysinfo: true }
}

fn watcher() -> Watcher {
    Watcher::new(&Config::default())
}

fn serve(w: &mut Watcher, path: &str, id: DeviceId, now: u64) {
    let mut d = NewDevice::new(path);
    w.handle_new_device(&mut d, DeviceEvent::Found);
    assert_eq!(w.handle_new_device(&mut d, DeviceEvent::Answer(Some(id))), DeviceStep::Start(id));
    assert_eq!(w.start_bridge(&id, BridgeEvent::Settled(true), now), BridgeStep::Running);
    assert_eq!(w.handle_new_device(&mut d, DeviceEvent::Started(true)), DeviceStep::Served);
}

#[test]
fn a_device_that_fails_is_left_alone() {
    let mut c = Cooldowns::new();
    let mut turns = Vec::new();
    for _ in 0..9 {
        turns.push(c.record_failure("/dev/a"));
        while c.should_skip("/dev/a") {}
    }
    assert_eq!(
        turns,
        vec![None, None, Some(3), Some(6), Some(12), Some(24), Some(30), Some(30), Some(30)]
    );
    assert_eq!(c.failures("/dev/a"), 9);
    assert!(!c.should_skip("/dev/b"));
    c.record_failure("/dev/a");
    assert!(c.should_skip("/dev/a"));
    c.record_success("/dev/a");
    assert!(!c.should_skip("/dev/a"));
    assert_eq!(c.failures("/dev/a"), 0);
    c.record_success("/dev/b");
    assert_eq!(c.entries.len(), 1);
}

#[test]
fn a_device_that_is_plugged_in_anew() {
    let mut w = watcher();
    for _ in 0..4 {
        w.cooldowns.record_failure("/dev/a");
    }
    w.cooldowns.record_failure("/dev/b");
    assert!(w.cooldowns.should_skip("/dev/a"));
    w.plugged_in("/dev/a");
    assert_eq!(w.cooldowns.failures("/dev/a"), 0);
    assert_eq!(w.cooldowns.failures("/dev/b"), 1);
    assert!(!w.cooldowns.should_skip("/dev/a"));
}

#[test]
fn a_device_is_asked_three_times() {
    let mut w = watcher();
    let mut d = NewDevice::new("/dev/a");
    assert_eq!(w.handle_new_device(&mut d, DeviceEvent::Found), DeviceStep::Identify);
    for n in 1..=3 {
        assert_eq!(w.handle_new_device(&mut d, DeviceEvent::Answer(None)), DeviceStep::Rest(n, 1000));
        let next = w.handle_new_device(&mut d, DeviceEvent::Rested);
        if n < 3 {
            assert_eq!(next, DeviceStep::Identify);
        } else {
            assert_eq!(next, DeviceStep::NotServed(None));
        }
    }
    assert_eq!(w.cooldowns.failures("/dev/a"), 1);
    assert!(w.active.is_none());
}

#[test]
fn a_device_gets_its_bridge() {
    let mut w = watcher();
    serve(&mut w, "/dev/a", id(DeviceType::Hybrid), 7);
    assert!(w.bridge);
    assert_eq!(w.bridge_started_at, Some(7));
    assert!(w.is_active("/dev/a"));
    let mut d = NewDevice::new("/dev/b");
    assert_eq!(w.handle_new_device(&mut d, DeviceEvent::Found), DeviceStep::StopBridges(300));
    let mut turn = Cleanup::new();
    let begun = CleanupEvent::Begin { ended: false };
    assert!(matches!(w.cleanup_bridges(&mut turn, begun), CleanupStep::Kill(100)));
    assert!(!w.bridge);
    assert_eq!(w.handle_new_device(&mut d, DeviceEvent::Stopped), DeviceStep::Identify);
    w.handle_new_device(&mut d, DeviceEvent::Answer(Some(id(DeviceType::Mpd))));
    assert_eq!(w.handle_new_device(&mut d, DeviceEvent::Started(false)), DeviceStep::NotServed(None));
    assert!(w.is_active("/dev/a"));
}

#[test]
fn the_start_of_a_bridge() {
    let mut w = watcher();
    let cava = id(DeviceType::Cava);
    assert_eq!(w.start_bridge(&cava, BridgeEvent::Wanted, 0), BridgeStep::ClearCava(1000));
    assert_eq!(w.start_bridge(&id(DeviceType::Mpd), BridgeEvent::Wanted, 0), BridgeStep::Search);
    assert_eq!(w.start_bridge(&cava, BridgeEvent::CavaCleared, 0), BridgeStep::Search);
    assert_eq!(w.start_bridge(&cava, BridgeEvent::Searched(false), 0), BridgeStep::Failed);
    assert_eq!(w.start_bridge(&cava, BridgeEvent::Searched(true), 0), BridgeStep::Spawn);
    assert_eq!(w.start_bridge(&cava, BridgeEvent::Spawned(true), 0), BridgeStep::Settle(1000));
    assert_eq!(w.start_bridge(&cava, BridgeEvent::Settled(false), 0), BridgeStep::Failed);
    assert!(!w.bridge);
}

/// The patterns by which bridges are told to stop, the looks at the bridge that was killed, and what
/// is done at the end.
fn clean_up(w: &mut Watcher, ended: bool, looks: u32, cava: bool) -> (Vec<String>, u32, Vec<String>) {
    let mut turn = Cleanup::new();
    let (mut patterns, mut looked, mut rest) = (Vec::new(), 0, Vec::new());
    let mut event = CleanupEvent::Begin { ended };
    loop {
        event = match w.cleanup_bridges(&mut turn, event) {
            CleanupStep::Kill(ms) | CleanupStep::Rest(ms) => {
                assert_eq!(ms, 100);
                looked += 1;
                CleanupEvent::Waited { ended: looked >= looks }
            }
            CleanupStep::Reap => {
                assert!(patterns.is_empty());
                rest.push("reap".to_string());
                CleanupEvent::Reaped
            }
            CleanupStep::Tell { kind, pattern } => {
                assert_eq!(pattern, pattern_of(kind));
                patterns.push(pattern);
                CleanupEvent::Told
            }
            CleanupStep::AskCava => CleanupEvent::Cava(cava),
            CleanupStep::ClearCava => {
                rest.push("clear".to_string());
                CleanupEvent::Cleared
            }
            CleanupStep::Done(ms) => {
                rest.push(format!("{ms}"));
                return (patterns, looked, rest);
            }
        };
    }
}

#[test]
fn all_bridges_are_stopped() {
    let all = list(&[
        "mcub-bridge-rust mpd",
        "mcub-bridge-rust cava",
        "mcub-bridge-rust hybrid",
        "mcub-bridge-rust sysinfo",
    ]);
    let mut w = watcher();
    assert_eq!(clean_up(&mut w, false, 1, false), (all.clone(), 0, list(&["500"])));
    serve(&mut w, "/dev/a", id(DeviceType::Cava), 0);
    assert_eq!(clean_up(&mut w, false, 3, true), (all.clone(), 3, list(&["reap", "clear", "500"])));
    assert!(!w.bridge);
    assert!(w.is_active("/dev/a"));
    serve(&mut w, "/dev/a", id(DeviceType::Mpd), 0);
    assert_eq!(clean_up(&mut w, false, 1000, false), (all.clone(), 30, list(&["reap", "500"])));
    serve(&mut w, "/dev/a", id(DeviceType::Mpd), 0);
    assert_eq!(clean_up(&mut w, true, 1, false), (all, 0, list(&["500"])));
}

#[test]
fn the_analyser_is_cleared_away() {
    let steps = cleanup_cava_process();
    assert_eq!(steps.len(), 4);
    assert!(matches!(&steps[0], ClearStep::Tell(p) if p == "/usr/bin/cava"));
    assert!(matches!(&steps[1], ClearStep::Rest(200)));
    assert!(matches!(&steps[2], ClearStep::Kill(p) if p == "/usr/bin/cava"));
    assert!(matches!(&steps[3], ClearStep::Remove(p) if p == "/tmp/cava_config"));
}

#[test]
fn what_a_bridge_is_told() {
    let plan = bridge_plan(&id(DeviceType::Cava), "/dev/a");
    assert_eq!(plan.arg, "cava");
    let env: Vec<(&str, &str)> = plan.env.iter().map(|v| (v.name.as_str(), v.value.as_str())).collect();
    assert_eq!(
        env,
        vec![
            ("DEVICE_PATH", "/dev/a"),
            ("MCUB_DEVICE_FORMAT", "binary"),
            ("MCUB_SPECTRUM_BARS", "32"),
            ("MCUB_HAS_SYSINFO", "1"),
        ]
    );
    let told = get_cava_env_config(Some(env[1].1.to_string()), Some(env[2].1.to_string()));
    assert_eq!(told.device_format, "binary");
    assert_eq!(told.spectrum_bars, Some(32));
    let mut plain = id(DeviceType::Mpd);
    plain.format = DeviceFormat::Json;
    plain.spectrum_bars = None;
    plain.has_sysinfo = false;
    assert_eq!(bridge_plan(&plain, "/dev/a").env.len(), 2);
    assert_eq!(identified_message(&id(DeviceType::Cava)), "Identified: cava (format=binary) (bars=32)");
    assert_eq!(identified_message(&plain), "Identified: mpd");
    assert_eq!(bridge_message(&id(DeviceType::Cava)), "Bridge: cava (binary)");
}

#[test]
fn the_health_of_a_bridge() {
    let mut w = watcher();
    assert!(matches!(w.check_active_bridge_health(true, 0), HealthStep::Fine));
    serve(&mut w, "/dev/a", id(DeviceType::Cava), 0);
    assert!(matches!(w.check_active_bridge_health(false, 8 * SECOND - 1), HealthStep::Fine));
    assert!(matches!(w.check_active_bridge_health(false, 8 * SECOND), HealthStep::AskCava));
    assert!(w.cava_restart(true).is_none());
    let (device, again) = w.cava_restart(false).unwrap();
    assert_eq!(device, "/dev/a");
    assert_eq!(again.device_type, DeviceType::Cava);
    assert!(!again.has_sysinfo);
    match w.check_active_bridge_health(true, 0) {
        HealthStep::Restart(d) => assert_eq!(d, Some("/dev/a".to_string())),
        other => panic!("{other:?}"),
    }
    assert!(!w.bridge);
}

#[test]
fn when_nothing_happens() {
    let mut w = watcher();
    assert_eq!(w.idle(0), IdleStep::Rescan);
    assert_eq!(w.idle(5 * SECOND - 1), IdleStep::Wait);
    assert_eq!(w.idle(5 * SECOND), IdleStep::Rescan);
    serve(&mut w, "/dev/a", id(DeviceType::Mpd), 0);
    assert_eq!(w.idle(60 * SECOND), IdleStep::CheckHealth);
}

#[test]
fn devices_come_and_go() {
    let mut p = Plugged::new();
    assert!(p.take_event("/dev/ttyACM0", PlugEvent::Added, true));
    assert!(p.take_event("/dev/ttyACM1", PlugEvent::Added, true));
    assert!(p.take_event("/dev/ttyACM0", PlugEvent::Added, true));
    assert!(!p.take_event("/dev/ttyUSB0", PlugEvent::Added, true));
    assert!(!p.take_event("/dev/ttyACM2", PlugEvent::Removed, true));
    assert!(!p.take_event("/dev/ttyACM3", PlugEvent::Removed, false));
    assert!(!p.take_event("/dev/ttyACM4", PlugEvent::Other, true));
    assert!(p.wants_more(SECOND - 1));
    assert!(!p.wants_more(SECOND));
    let (came, went) = p.finish();
    assert_eq!(came, list(&["/dev/ttyACM1", "/dev/ttyACM0"]));
    assert_eq!(went, list(&["/dev/ttyACM2"]));
    let mut w = watcher();
    serve(&mut w, "/dev/ttyACM2", id(DeviceType::Mpd), 0);
    assert!(!w.device_removed("/dev/ttyACM9"));
    assert!(w.device_removed("/dev/ttyACM2"));
    assert!(w.active.is_none());
}

#[test]
fn the_first_device_that_is_served() {
    let mut w = watcher();
    let mut t = WatchTurn::new();
    assert_eq!(w.run(&mut t, WatchEvent::Begin, 0), WatchStep::Scan);
    assert_eq!(w.last_rescan, None);
    let found = list(&["/dev/ttyACM2", "/dev/ttyACM1", "/dev/ttyACM0"]);
    assert_eq!(w.run(&mut t, WatchEvent::Scanned(found), 0), WatchStep::Try);
    assert_eq!(t.devices[t.at], "/dev/ttyACM2");
    assert_eq!(w.run(&mut t, WatchEvent::Tried(false), 0), WatchStep::Try);
    assert_eq!(t.devices[t.at], "/dev/ttyACM1");
    assert_eq!(w.run(&mut t, WatchEvent::Tried(true), 0), WatchStep::Wait);
    assert_eq!(t.at, 3);
}

#[test]
fn nothing_is_found() {
    let mut w = watcher();
    let mut t = WatchTurn::new();
    assert_eq!(w.run(&mut t, WatchEvent::Quiet, SECOND), WatchStep::Scan);
    assert_eq!(w.last_rescan, Some(SECOND));
    assert_eq!(w.run(&mut t, WatchEvent::Scanned(Vec::new()), SECOND), WatchStep::Wait);
    assert_eq!(w.run(&mut t, WatchEvent::Quiet, 2 * SECOND), WatchStep::Wait);
    serve(&mut w, "/dev/ttyACM0", id(DeviceType::Mpd), 2 * SECOND);
    assert_eq!(w.run(&mut t, WatchEvent::Quiet, 90 * SECOND), WatchStep::CheckHealth);
}

#[test]
fn one_device_comes_and_another_goes() {
    let mut w = watcher();
    let mut t = WatchTurn::new();
    serve(&mut w, "/dev/ttyACM5", id(DeviceType::Mpd), 0);
    w.cooldowns.record_failure("/dev/ttyACM1");
    w.cooldowns.record_failure("/dev/ttyACM7");
    let mut p = Plugged::new();
    p.take_event("/dev/ttyACM1", PlugEvent::Added, true);
    p.take_event("/dev/ttyACM3", PlugEvent::Added, true);
    p.take_event("/dev/ttyACM5", PlugEvent::Removed, true);
    p.take_event("/dev/ttyACM7", PlugEvent::Removed, true);
    assert_eq!(w.run(&mut t, WatchEvent::Plugs(p), 0), WatchStep::Try);
    assert_eq!(t.devices, list(&["/dev/ttyACM3", "/dev/ttyACM1"]));
    assert_eq!(w.cooldowns.failures("/dev/ttyACM1"), 1);
    assert_eq!(w.run(&mut t, WatchEvent::Tried(false), 0), WatchStep::Try);
    assert_eq!(w.cooldowns.failures("/dev/ttyACM1"), 0);
    assert_eq!(w.run(&mut t, WatchEvent::Tried(false), 0), WatchStep::Gone(true));
    assert_eq!(t.removed[t.gone], "/dev/ttyACM5");
    assert!(w.active.is_none());
    assert!(w.bridge);
    assert_eq!(w.run(&mut t, WatchEvent::Parted, 0), WatchStep::Gone(false));
    assert_eq!(w.cooldowns.failures("/dev/ttyACM7"), 0);
    assert_eq!(w.run(&mut t, WatchEvent::Parted, 0), WatchStep::Wait);
}

#[test]
fn a_turn_of_polling() {
    let mut w = watcher();
    let mut t = PollTurn::new(list(&["/dev/a", "/dev/b"]));
    assert_eq!(w.run_polling(&mut t, PollEvent::Begin), PollStep::Identify);
    assert_eq!(w.run_polling(&mut t, PollEvent::Answer(false)), PollStep::Identify);
    assert_eq!(t.at, 1);
    assert_eq!(w.run_polling(&mut t, PollEvent::Answer(true)), PollStep::HandleNew);
    serve(&mut w, "/dev/b", id(DeviceType::Mpd), 0);
    let mut t = PollTurn::new(list(&["/dev/b"]));
    assert_eq!(w.run_polling(&mut t, PollEvent::Begin), PollStep::CheckHealth);
    let mut t = PollTurn::new(list(&["/dev/a"]));
    assert_eq!(w.run_polling(&mut t, PollEvent::Begin), PollStep::Identify);
    assert_eq!(w.run_polling(&mut t, PollEvent::Answer(false)), PollStep::StopBridges);
    assert!(w.active.is_none());
    let mut t = PollTurn::new(list(&[]));
    assert_eq!(w.run_polling(&mut t, PollEvent::Begin), PollStep::Over);
    assert_eq!(w.poll_rest_ms(), 5000);
}

#[test]
fn a_device_left_alone_is_asked_again() {
    let mut w = watcher();
    let mut pauses = Vec::new();
    let mut asked = Vec::new();
    for turn in 0..12 {
        let mut t = PollTurn::new(list(&["/dev/a"]));
        if w.run_polling(&mut t, PollEvent::Begin) == PollStep::Identify {
            asked.push(turn);
            assert_eq!(w.run_polling(&mut t, PollEvent::Answer(false)), PollStep::Over);
            pauses.push(t.pause);
        }
    }
    assert_eq!(asked, vec![0, 1, 2, 6]);
    assert_eq!(pauses, vec![None, None, Some(3), Some(6)]);
}

#[test]
fn the_player_is_awaited() {
    assert_eq!(wait_for_mpd(0, true), MpdWait::Ready);
    assert_eq!(wait_for_mpd(28, false), MpdWait::Rest(2 * SECOND));
    assert_eq!(wait_for_mpd(29, false), MpdWait::Timeout);
}

#[test]
fn the_watcher_reads_its_command_line() {
    assert_eq!(
        parse_args(&list(&["w", "--no-wait-mpd", "x", "--status"])),
        WatcherArgs::Run { status: true, cleanup: false, no_wait_mpd: true }
    );
    assert_eq!(parse_args(&list(&["w", "--cleanup", "--version"])), WatcherArgs::Version);
    assert_eq!(parse_args(&list(&["w", "-h", "--version"])), WatcherArgs::Help);
    assert_eq!(
        parse_args(&list(&[])),
        WatcherArgs::Run { status: false, cleanup: false, no_wait_mpd: false }
    );
}

#[test]
fn the_state_of_the_watcher() {
    let mut w = watcher();
    assert_eq!(
        w.status_report("9", 2, true, false),
        list(&[
            "MCUB WATCHER v9",
            "Active device: None",
            "Active bridge: None",
            "Connected devices: 2",
            "MPD bridge running: 1",
            "CAVA bridge running: 0",
        ])
    );
    serve(&mut w, "/dev/a", id(DeviceType::Mpd), 0);
    assert_eq!(w.status_report("9", 2, true, false)[2], "Active bridge: mpd");
}
