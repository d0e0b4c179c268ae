use mcub::action_runner::{ActionRunner, Dispatch, Loaded};
use mcub::cava_bridge::FrameStep;
use mcub::cava_manager::ReadResult;
use mcub::config_manager::{get_cava_env_config, ActionEntry, Config};
use mcub::device_identifier::Modes;
use mcub::hybrid_bridge::{
    asks_for_sysinfo, missed_frames, sleep_check, CheckStep, CommandStep, HybridBridge, HybridEvent,
    HybridId, HybridStep, Launch, MpdChecker, TurnStep, Worker,
};
use mcub::mpd_bridge::{MpdBridge, Params, Plan, WireCommand, WireMessage};
use mcub::mpd_client::{Song, State, Status};

const SECOND: u64 = 1_000_000_000;

fn bridge() -> HybridBridge {
    let env = get_cava_env_config(Some("binary".to_string()), None);
    HybridBridge::new(&Config::default(), env, 0)
}

fn id(modes: &[&str], name: Option<&str>) -> Option<HybridId> {
    Some(HybridId {
        modes: modes.iter().map(|m| m.to_string()).collect(),
        name: name.map(String::from),
    })
}

fn command(t: &str, action: &str, name: Option<&str>) -> WireMessage {
    WireMessage {
        t: t.to_string(),
        content: Some(WireCommand {
            action: action.to_string(),
            parameters: Some(Params { name: name.map(String::from), volume: None }),
        }),
    }
}

fn state(title: &str) -> String {
    let s = Status {
        state: State::Play,
        volume: 1,
        elapsed_ms: 0,
        duration_s: 0,
        song_pos: None,
        song_id: None,
        queue_len: 0,
        repeat: false,
        random: false,
        single: false,
        consume: false,
    };
    let song = Song {
        file: String::new(),
        title: Some(title.to_string()),
        artist: None,
        album: None,
        genre: None,
        date: None,
        track: None,
        duration_s: None,
    };
    MpdBridge::build_state_json(&s, 0, Some(&song))
}

#[test]
fn a_bridge_is_made() {
    let b = bridge();
    assert_eq!(b.spectrum_bars, Some(16));
    assert_eq!(b.device_format, "binary");
    assert_eq!(b.cava_format, "binary");
    assert_eq!(b.sysinfo_interval_ns, 2 * SECOND);
    assert_eq!(b.supports, Modes { mpd: false, cava: false, sysinfo: false });
}

#[test]
fn modes_from_the_reply_and_the_environment() {
    let mut b = bridge();
    assert!(b.extract_supported_modes(&id(&["lamp"], None), false));
    assert_eq!(b.supports, Modes { mpd: false, cava: false, sysinfo: false });
    let mut b = bridge();
    assert!(!b.extract_supported_modes(&id(&[], Some("lamp")), false));
    assert!(b.extract_supported_modes(&id(&[], Some("CAVA lamp")), true));
    assert_eq!(b.supports, Modes { mpd: false, cava: true, sysinfo: true });
    let mut b = bridge();
    assert!(!b.extract_supported_modes(&None, true));
    assert!(!b.supports.sysinfo);
    let mut b = bridge();
    assert!(b.extract_supported_modes(&id(&["mpd", "cava"], None), true));
    assert!(b.extract_supported_modes(&id(&[], None), false));
    assert_eq!(b.supports, Modes { mpd: true, cava: true, sysinfo: true });
    assert!(asks_for_sysinfo(Some("1")));
    assert!(!asks_for_sysinfo(Some("yes")));
    assert!(!asks_for_sysinfo(None));
}

#[test]
fn how_the_hybrid_bridge_comes_up() {
    let mut b = bridge();
    assert!(matches!(b.run(HybridEvent::Connected(false), false), HybridStep::Exit(1)));
    assert!(matches!(b.run(HybridEvent::Connected(true), false), HybridStep::Identify));
    assert!(matches!(b.run(HybridEvent::NoAnswer, false), HybridStep::Exit(1)));
    match b.run(HybridEvent::Answered(id(&["sysinfo", "mpd", "cava"], None)), false) {
        HybridStep::Launch { parts, detected } => {
            assert!(detected);
            assert_eq!(
                parts,
                vec![Launch::Mpd, Launch::Cava, Launch::WarmUp, Launch::Commands, Launch::Sysinfo]
            );
        }
        other => panic!("{other:?}"),
    }
    let mut b = bridge();
    match b.run(HybridEvent::Answered(None), true) {
        HybridStep::Launch { parts, detected } => {
            assert!(!detected);
            assert_eq!(parts, vec![Launch::Commands]);
        }
        other => panic!("{other:?}"),
    }
    assert!(matches!(b.run(HybridEvent::Ended(None), true), HybridStep::Exit(0)));
    assert!(matches!(b.run(HybridEvent::Ended(Some(Worker::Mpd)), true), HybridStep::Exit(0)));
}

#[test]
fn turns_of_the_main_loop() {
    let mut b = bridge();
    b.started(Worker::Mpd);
    b.started(Worker::Commands);
    assert!(!b.cava_started(false));
    assert_eq!(b.turn(&vec![false, false]), TurnStep::TryCava);
    assert!(!b.cava_started(false));
    assert_eq!(b.turn(&vec![false, false]), TurnStep::TryCava);
    assert!(b.cava_started(true));
    assert_eq!(b.workers, vec![Worker::Mpd, Worker::Commands, Worker::Cava]);
    assert_eq!(b.turn(&vec![false, false, false]), TurnStep::Rest);
    assert_eq!(b.turn(&vec![false, false, false]), TurnStep::Rest);
    assert_eq!(b.turn(&vec![true, true, false]), TurnStep::Stop(Worker::Commands));
    assert_eq!(b.workers, vec![Worker::Cava]);
    assert_eq!(Worker::Sysinfo.as_str(), "SysInfoThread");
}

#[test]
fn what_a_report_tells() {
    let mut b = bridge();
    assert_eq!(b.take_frame(&ReadResult::Frame(vec![1])), FrameStep::Send);
    b.frame_done(false, 10);
    assert_eq!(b.take_frame(&ReadResult::Frame(vec![1])), FrameStep::Skip);
    b.frame_done(true, 10);
    b.mpd_updated(7, 30);
    b.mpd_updated(9, 10);
    assert_eq!(b.sysinfo_updated(true, 5), 2 * SECOND);
    assert_eq!(b.sysinfo_updated(false, 5), 2 * SECOND);
    assert_eq!(b.last_mpd_update, Some(9));
    assert!(b.report_stats(60 * SECOND - 1).is_none());
    let r = b.report_stats(61 * SECOND).unwrap();
    assert_eq!(r.uptime_secs, 61);
    assert_eq!(r.counts.cava_frames, 2);
    assert_eq!(r.counts.bytes_sent, 25);
    assert_eq!(r.counts.mpd_latency_total_ns, 40);
    assert_eq!(r.counts.mpd_latency_max_ns, 30);
    assert_eq!(r.counts.sysinfo_updates, 1);
    assert_eq!(b.stats.mpd_updates, 0);
    assert_eq!(b.stats.start, 0);
    assert_eq!(missed_frames(100, 0), 0);
    assert_eq!(missed_frames(100, 90), 10);
    assert_eq!(missed_frames(100, 110), 0);
}

#[test]
fn commands_of_a_device() {
    let mut b = bridge();
    assert!(matches!(b.process_command(&command("m", "next", None)), CommandStep::NoCommand));
    let empty = WireMessage { t: "cmd".to_string(), content: None };
    assert!(matches!(b.process_command(&empty), CommandStep::NoCommand));
    assert_eq!(b.stats.commands, 0);
    assert!(matches!(b.process_command(&command("cmd", "dance", None)), CommandStep::Ignore));
    assert!(matches!(b.process_command(&command("cmd", "exec", None)), CommandStep::Ignore));
    match b.process_command(&command("cmd", "exec", Some("lights"))) {
        CommandStep::Exec(n) => assert_eq!(n, "lights"),
        other => panic!("{other:?}"),
    }
    assert!(matches!(b.process_command(&command("cmd", "next", None)), CommandStep::NotSupported));
    b.supports.mpd = true;
    assert!(matches!(b.process_command(&command("cmd", "next", None)), CommandStep::Mpd));
    assert_eq!(b.stats.commands, 5);
}

#[test]
fn the_player_knows_what_it_is_handed() {
    let mut player = MpdBridge::new(&Config::default().mpd);
    player.connect(true);
    for action in [
        "play_pause", "next", "previous", "stop", "set_volume", "volume_up", "volume_down", "repeat",
        "single", "consume", "random",
    ] {
        assert!(!matches!(player.handle_command(action, None, 0), Plan::Unknown));
    }
}

#[test]
fn the_player_is_watched() {
    let mut c = MpdChecker::new();
    assert_eq!(c.begin(0, false), CheckStep::Connect);
    assert_eq!(c.connected(false), CheckStep::Rest(SECOND));
    assert_eq!(c.begin(5 * SECOND - 1, false), CheckStep::Rest(SECOND / 2));
    assert_eq!(c.begin(5 * SECOND, false), CheckStep::Connect);
    assert_eq!(c.connected(true), CheckStep::Go);
    assert_eq!(c.due(Some(5 * SECOND), SECOND, 5 * SECOND), CheckStep::Update);
    assert_eq!(c.begin(5 * SECOND, true), CheckStep::Go);
    assert_eq!(c.due(Some(5 * SECOND), SECOND, 5 * SECOND + 100), CheckStep::Rest(SECOND - 100));
    assert_eq!(c.due(Some(5 * SECOND), SECOND, 6 * SECOND - 1), CheckStep::Rest(50_000_000));
    assert_eq!(c.due(Some(5 * SECOND), SECOND, 6 * SECOND), CheckStep::Update);
    assert_eq!(c.due(None, SECOND, 0), CheckStep::Update);
    assert_eq!(MpdChecker::built(true), CheckStep::Send);
    assert_eq!(MpdChecker::built(false), CheckStep::Rest(SECOND / 10));
    assert_eq!(MpdChecker::sent(SECOND / 2), CheckStep::Rest(SECOND / 2));
}

#[test]
fn changes_of_the_player_are_told() {
    let mut c = MpdChecker::new();
    assert!(c.take_message(&state("One")).is_empty());
    assert_eq!(c.last_state, Some("P".to_string()));
    assert!(c.take_message(&state("One")).is_empty());
    assert_eq!(
        c.take_message(&state("A title of more than thirty characters")),
        vec!["MPD: track=\"A title of more than thirty ch\"".to_string()]
    );
    assert_eq!(
        c.take_message(&state("a \"b\" \\ \u{e9}")),
        vec!["MPD: track=\"a \"b\" \\ \u{e9}\"".to_string()]
    );
    assert!(c.take_message(&state("")).is_empty());
    assert!(c.take_message("no json").is_empty());
    assert_eq!(c.last_title, Some(String::new()));
    assert_eq!(
        c.note_change(Some("S".to_string()), None),
        vec!["MPD: P->S".to_string()]
    );
    assert_eq!(c.last_title, None);
    assert!(c.take_message("{\"d\":{\"state\":1}}").is_empty());
    assert_eq!(c.last_state, None);
}

#[test]
fn a_rest_has_parts() {
    let mut left = SECOND / 4;
    let mut parts = Vec::new();
    while let Some(p) = sleep_check(left) {
        parts.push(p);
        left -= p;
    }
    assert_eq!(parts, vec![100_000_000, 100_000_000, 50_000_000]);
    assert_eq!(sleep_check(0), None);
}

#[test]
fn only_listed_commands_run() {
    let entry = |n: &str, c: &str| ActionEntry { name: n.to_string(), command: c.to_string() };
    let mut r = ActionRunner::new();
    assert!(matches!(r.dispatch("a"), Dispatch::Ignore));
    assert_eq!(r.init(vec![entry("a", "one"), entry("b", "two"), entry("a", "three")]), Loaded::Actions(3));
    assert_eq!(r.init(vec![entry("c", "four")]), Loaded::Late);
    for (name, command) in [("a", "three"), ("b", "two")] {
        match r.dispatch(name) {
            Dispatch::Run(plan) => {
                assert_eq!(plan.program, "/bin/sh");
                assert_eq!(plan.args, vec!["/bin/sh", "-c", command]);
                assert_eq!(plan.env.len(), 1);
                assert_eq!(plan.env[0].name, "MCUB_ACTION_NAME");
                assert_eq!(plan.env[0].value, name);
            }
            other => panic!("{other:?}"),
        }
    }
    assert!(matches!(r.dispatch("c"), Dispatch::Unknown));
    assert!(matches!(r.dispatch(""), Dispatch::Ignore));
    assert_eq!(ActionRunner::new().init(vec![]), Loaded::Empty);
}
