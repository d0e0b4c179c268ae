use mcub::config_manager::Config;
use mcub::error::McubError;
use mcub::mpd_bridge::{
    clean_track, format_hhmmss, format_mmss, Mode, MpdBridge, MpdEvent, MpdStep, Params, Pending,
    Plan, Request, StateStep, VolumeParam, WireCommand, WireMessage,
};
use mcub::mpd_client::{Command, Line, MpdClient, Progress, Reading, Song, State, Status};

const SECOND: u64 = 1_000_000_000;

fn reading(millis: u64) -> Reading {
    Reading { millis, secs: Some((millis / 1000) as u32) }
}

fn reply(client: &mut MpdClient, lines: &[(&str, u64)]) {
    for (line, millis) in lines {
        assert!(matches!(client.read_pairs(Some(Line::parse(line)), reading(*millis)), Progress::More));
    }
    assert!(matches!(client.read_pairs(Some(Line::parse("OK\n")), reading(0)), Progress::Complete));
}

fn status(state: State) -> Status {
    Status {
        state,
        volume: 55,
        elapsed_ms: 61_500,
        duration_s: 245,
        song_pos: Some(2),
        song_id: Some(17),
        queue_len: 3,
        repeat: true,
        random: false,
        single: false,
        consume: false,
    }
}

fn song() -> Song {
    Song {
        file: "Music/a \"b\".flac".to_string(),
        title: Some("One\nTwo".to_string()),
        artist: Some("Ärtist".to_string()),
        album: None,
        genre: None,
        date: Some("1999".to_string()),
        track: Some("03/12".to_string()),
        duration_s: Some(245),
    }
}

fn connected() -> MpdBridge {
    let mut b = MpdBridge::new(&Config::default().mpd);
    b.connect(true);
    b
}

#[test]
fn the_player_greets() {
    assert!(MpdClient::connect("OK MPD 0.24.0\n").is_ok());
    match MpdClient::connect("HTTP/1.1 400\n") {
        Err(e) => assert_eq!(e.message(), "mpd: bad banner: HTTP/1.1 400"),
        Ok(_) => panic!(),
    }
}

#[test]
fn a_status_is_read() {
    let mut c = MpdClient::connect("OK MPD 0.24.0").unwrap();
    assert_eq!(c.send(Command::Status), "status\n");
    reply(
        &mut c,
        &[
            ("volume: 55\n", 0),
            ("repeat: 1\n", 1000),
            ("single: oneshot\n", 0),
            ("consume: 0\n", 0),
            ("state: play\n", 0),
            ("song: 2\n", 2000),
            ("songid: 17\n", 17_000),
            ("playlistlength: 3\n", 3000),
            ("elapsed: 61.5\n", 61_500),
            ("duration: 245.9\n", 245_900),
        ],
    );
    let s = c.status();
    assert_eq!(s.state, State::Play);
    assert_eq!(s.volume, 55);
    assert_eq!(s.elapsed_ms, 61_500);
    assert_eq!(s.duration_s, 245);
    assert_eq!(s.song_pos, Some(2));
    assert_eq!(s.song_id, Some(17));
    assert_eq!(s.queue_len, 3);
    assert!(s.repeat && s.single && !s.consume && !s.random);
}

#[test]
fn the_length_of_a_song() {
    let length = |lines: &[(&str, u64)]| {
        let mut c = MpdClient::connect("OK MPD 0.24.0").unwrap();
        reply(&mut c, lines);
        c.status().duration_s
    };
    assert_eq!(length(&[("duration: 0.4\n", 400), ("time: 0:1\n", 0)]), 0);
    assert_eq!(length(&[("time: 0:1\n", 0), ("duration: 0.4\n", 400)]), 0);
    assert_eq!(length(&[("time: 61:245\n", 0), ("duration: 244.9\n", 244_900)]), 244);
    assert_eq!(length(&[("time: 61:245\n", 0)]), 245);
    assert_eq!(length(&[("time: 61:x\n", 0)]), 0);
    assert_eq!(length(&[("time: 61\n", 0)]), 0);
    assert_eq!(length(&[("state: play\n", 0)]), 0);
}

#[test]
fn a_stopped_player_shows_no_song() {
    let stopped = status(State::Stop);
    assert_eq!(
        MpdBridge::build_state_json(&stopped, 600, Some(&song())),
        MpdBridge::build_state_json(&stopped, 600, None)
    );
    let playing = status(State::Play);
    assert_ne!(
        MpdBridge::build_state_json(&playing, 600, Some(&song())),
        MpdBridge::build_state_json(&playing, 600, None)
    );
}

#[test]
fn a_refusal_and_a_closed_connection() {
    let mut c = MpdClient::connect("OK MPD 0.24.0").unwrap();
    match c.read_pairs(Some(Line::parse("ACK [5@0] {} unknown command\n")), reading(0)) {
        Progress::Failed(McubError::Mpd(m)) => assert_eq!(m, "[5@0] {} unknown command"),
        other => panic!("{other:?}"),
    }
    match c.read_pairs(None, reading(0)) {
        Progress::Failed(e) => assert_eq!(e.message(), "mpd: connection closed"),
        other => panic!("{other:?}"),
    }
}

#[test]
fn the_queue_has_a_song_for_each_file() {
    let mut c = MpdClient::connect("OK MPD 0.24.0").unwrap();
    reply(
        &mut c,
        &[
            ("file: a.mp3\n", 0),
            ("Title: A\n", 0),
            ("duration: 60.2\n", 60_200),
            ("file: b.mp3\n", 0),
            ("Title: B\n", 0),
            ("Title: B2\n", 0),
        ],
    );
    let q = c.playlistinfo();
    assert_eq!(q.len(), 2);
    assert_eq!(q[0].file, "a.mp3");
    assert_eq!(q[0].title, Some("A".to_string()));
    assert_eq!(q[0].duration_s, Some(60));
    assert_eq!(q[1].title, Some("B2".to_string()));
    assert!(c.currentsong().is_some());
    c.send(Command::CurrentSong);
    assert!(c.currentsong().is_none());
    assert_eq!(c.playlistinfo().len(), 0);
}

#[test]
fn requests_as_lines() {
    assert_eq!(MpdClient::set_volume(250).line(), "setvol 100\n");
    assert_eq!(MpdClient::set_volume(-5).line(), "setvol 0\n");
    assert_eq!(MpdClient::pause(true).line(), "pause 1\n");
    assert_eq!(MpdClient::toggle_pause().line(), "pause\n");
    assert_eq!(MpdClient::play_pos(0).line(), "play 0\n");
    assert_eq!(MpdClient::seek_current(0).line(), "seekcur 0\n");
    assert_eq!(MpdClient::set_random(false).line(), "random 0\n");
    for c in [MpdClient::play(), MpdClient::stop(), MpdClient::next(), MpdClient::previous()] {
        assert_eq!(c.line().matches('\n').count(), 1);
    }
}

#[test]
fn times_and_tracks_for_the_display() {
    assert_eq!(format_mmss(61), "01:01");
    assert_eq!(format_mmss(6_000), "100:00");
    assert_eq!(format_hhmmss(3_661), "01:01:01");
    assert_eq!(clean_track("03/12"), "03");
    assert_eq!(clean_track("abc"), "0");
}

#[test]
fn the_state_of_the_player_as_a_message() {
    let json = MpdBridge::build_state_json(&status(State::Play), 3_661, Some(&song()));
    assert!(json.starts_with("{\"t\":\"m\",\"d\":{\"state\":\"P\",\"volume\":\"55\","));
    assert!(json.contains("\"elapsed\":\"01:01\""));
    assert!(json.contains("\"playlist_position\":\"3\""));
    assert!(json.contains("\"playlist_total_time\":\"01:01:01\""));
    assert!(json.contains("\"title\":\"One\\nTwo\""));
    assert!(json.contains("\"album\":\"Unknown\""));
    assert!(json.contains("\"track_number\":\"03\""));
    assert!(json.chars().all(|c| c >= ' '));
    let v: serde_json::Value = serde_json::from_str(&json).unwrap();
    assert_eq!(v["d"]["title"], "One\nTwo");
    assert_eq!(v["d"]["artist"], "Ärtist");
    assert_eq!(v["d"]["file_type"], "FLAC");
}

#[test]
fn the_length_of_the_queue_is_asked_for_once() {
    let mut b = connected();
    let s = status(State::Play);
    let ok = Ok(status(State::Play));
    assert!(matches!(b.take_status(&ok), StateStep::AskPlaylist));
    let songs = Ok(vec![song(), song()]);
    assert!(matches!(b.calculate_playlist_time(&s, &songs), StateStep::AskSong { total: 490 }));
    assert!(matches!(b.take_status(&ok), StateStep::AskSong { total: 490 }));
    assert!(matches!(b.take_status(&Ok(status(State::Stop))), StateStep::Ready { total: 490 }));
}

#[test]
fn no_state_without_a_connection() {
    let mut b = MpdBridge::new(&Config::default().mpd);
    assert!(matches!(b.ask_state(), StateStep::NoClient));
    assert!(matches!(b.take_status(&Ok(status(State::Play))), StateStep::NoClient));
    assert!(matches!(b.take_status(&Err(McubError::Timeout)), StateStep::NoClient));
    b.connect(true);
    assert!(matches!(b.ask_state(), StateStep::AskStatus));
}

#[test]
fn the_loss_of_the_player_is_told_once() {
    let mut b = connected();
    assert!(matches!(b.take_status(&Err(McubError::Timeout)), StateStep::Lost { report: true }));
    assert!(!b.is_connected());
    assert!(matches!(b.take_status(&Err(McubError::Timeout)), StateStep::Lost { report: false }));
    b.connect(true);
    assert!(matches!(b.take_status(&Err(McubError::Timeout)), StateStep::Lost { report: true }));
}

#[test]
fn a_mode_switched_twice_is_as_before() {
    for mode in [Mode::Repeat, Mode::Random, Mode::Single, Mode::Consume] {
        let s = status(State::Play);
        let mut t = status(State::Play);
        t.repeat = !s.repeat;
        t.random = !s.random;
        t.single = !s.single;
        t.consume = !s.consume;
        let a = MpdBridge::toggle_flag(&s, mode);
        let b = MpdBridge::toggle_flag(&t, mode);
        assert!(a.line() != b.line());
        assert_eq!(a.line(), MpdBridge::resume(Pending::Toggle(mode), &s).line());
    }
    assert_eq!(MpdBridge::toggle_flag(&status(State::Play), Mode::Repeat).line(), "repeat 0\n");
}

#[test]
fn play_and_pause() {
    assert_eq!(MpdBridge::resume(Pending::PlayPause, &status(State::Stop)).line(), "play\n");
    assert_eq!(MpdBridge::resume(Pending::PlayPause, &status(State::Play)).line(), "pause 1\n");
    assert_eq!(MpdBridge::resume(Pending::PlayPause, &status(State::Pause)).line(), "pause 0\n");
}

#[test]
fn the_volume_stays_in_range() {
    assert_eq!(MpdBridge::adjust_volume(95, 10).line(), "setvol 100\n");
    assert_eq!(MpdBridge::adjust_volume(5, -10).line(), "setvol 0\n");
    let mut b = connected();
    let p = Params { name: None, volume: Some(VolumeParam::Number(Some(300))) };
    match b.handle_command("set_volume", Some(&p), 0) {
        Plan::Send(v) => assert_eq!(v[0].line(), "setvol 100\n"),
        other => panic!("{other:?}"),
    }
    let p = Params { name: None, volume: Some(VolumeParam::Text("-7".to_string())) };
    match b.handle_command("set_volume", Some(&p), 0) {
        Plan::AskStatus(pending) => assert_eq!(pending, Pending::AdjustVolume(-7)),
        other => panic!("{other:?}"),
    }
    let p = Params { name: None, volume: Some(VolumeParam::Other) };
    assert!(matches!(b.handle_command("set_volume", Some(&p), 0), Plan::Nothing));
}

#[test]
fn a_second_stop_goes_back_to_the_first_song() {
    let mut b = connected();
    let sent = |p: Plan| match p {
        Plan::Send(v) => v.into_iter().map(|c| c.line()).collect::<Vec<_>>(),
        other => panic!("{other:?}"),
    };
    assert_eq!(sent(b.handle_command("stop", None, SECOND)), vec!["stop\n"]);
    assert_eq!(sent(b.handle_command("stop", None, 3 * SECOND)), vec!["play 0\n", "stop\n"]);
    assert_eq!(sent(b.handle_command("stop", None, 3 * SECOND)), vec!["stop\n"]);
    assert_eq!(sent(b.handle_command("stop", None, 60 * SECOND)), vec!["stop\n"]);
}

#[test]
fn the_previous_song_or_the_beginning_of_this_one() {
    let mut b = connected();
    let first = |p: Plan| match p {
        Plan::Send(v) => v[0].line(),
        other => panic!("{other:?}"),
    };
    b.take_status(&Ok(status(State::Play)));
    assert_eq!(first(b.handle_command("previous", None, 0)), "seekcur 0\n");
    let mut s = status(State::Play);
    s.elapsed_ms = 2000;
    b.take_status(&Ok(s));
    assert_eq!(first(b.handle_command("previous", None, 0)), "previous\n");
}

#[test]
fn commands_without_a_player() {
    let mut b = MpdBridge::new(&Config::default().mpd);
    assert!(matches!(b.handle_command("next", None, 0), Plan::NotConnected));
    let p = Params { name: Some("reboot".to_string()), volume: None };
    match b.handle_command("exec", Some(&p), 0) {
        Plan::Exec(n) => assert_eq!(n, "reboot"),
        other => panic!("{other:?}"),
    }
    b.connect(true);
    assert!(matches!(b.handle_command("dance", None, 0), Plan::Unknown));
    assert!(matches!(b.handle_command("exec", None, 0), Plan::Nothing));
    assert!(b.disconnect());
    assert!(!b.disconnect());
}

#[test]
fn the_player_is_reached_again_with_patience() {
    let mut b = MpdBridge::new(&Config::default().mpd);
    let a = b.attempt_reconnection(0);
    assert!(a.allowed);
    assert_eq!(a.report, Some("MPD: retry 1".to_string()));
    assert!(!b.attempt_reconnection(1).allowed);
    b.reconnected(true);
    assert!(b.is_connected());
    assert!(b.attempt_reconnection(2).allowed);
}

#[test]
fn a_player_that_answers_is_left_alone() {
    let mut b = connected();
    assert!(b.keep_connected(0).is_none());
    assert_eq!(b.reconnection.attempts, 0);
    b.take_status(&Err(McubError::Timeout));
    assert!(b.keep_connected(0).is_some_and(|a| a.allowed));
    assert!(b.keep_connected(1).is_some_and(|a| !a.allowed));
    b.reconnected(true);
    assert!(b.keep_connected(2).is_none());
}

#[test]
fn only_commands_are_carried_out() {
    let mut b = connected();
    let message = |t: &str, action: &str| WireMessage {
        t: t.to_string(),
        content: Some(WireCommand { action: action.to_string(), parameters: None }),
    };
    assert!(matches!(b.process_device_commands(&message("log", "stop"), 0), Plan::NoCommand));
    assert_eq!(b.cache.stop_count, 0);
    let empty = WireMessage { t: "cmd".to_string(), content: None };
    assert!(matches!(b.process_device_commands(&empty, 0), Plan::NoCommand));
    match b.process_device_commands(&message("cmd", "stop"), 0) {
        Plan::Send(v) => assert_eq!(v[0].line(), "stop\n"),
        other => panic!("{other:?}"),
    }
    assert_eq!(b.cache.stop_count, 1);
}

#[test]
fn requests_end_with_the_first_failure() {
    let v = vec![MpdClient::play_pos(0), MpdClient::stop()];
    assert!(matches!(MpdBridge::next_request(&v, 0, Ok(())), Request::Send(Command::PlayPos(0))));
    assert!(matches!(MpdBridge::next_request(&v, 1, Ok(())), Request::Send(Command::Stop)));
    assert!(matches!(MpdBridge::next_request(&v, 2, Ok(())), Request::Done(Ok(()))));
    match MpdBridge::next_request(&v, 1, Err(McubError::Timeout)) {
        Request::Done(Err(McubError::Timeout)) => {}
        other => panic!("{other:?}"),
    }
}

#[test]
fn the_state_is_sent_at_intervals() {
    let mut b = connected();
    let step = b.update_interval_ns;
    assert!(b.send_status(5));
    assert!(!b.send_status(4 + step));
    assert!(b.send_status(5 + step));
}

#[test]
fn how_the_bridge_of_the_player_comes_up() {
    assert_eq!(MpdBridge::run(MpdEvent::Connected(true)), MpdStep::ReachPlayer);
    assert_eq!(MpdBridge::run(MpdEvent::Connected(false)), MpdStep::Exit(1));
    assert_eq!(MpdBridge::run(MpdEvent::PlayerReached(false)), MpdStep::Exit(1));
    assert_eq!(MpdBridge::run(MpdEvent::PlayerReached(true)), MpdStep::Identify);
    assert_eq!(MpdBridge::run(MpdEvent::Identified(false)), MpdStep::Loop);
    assert_eq!(MpdBridge::run(MpdEvent::Ended), MpdStep::Exit(0));
}
