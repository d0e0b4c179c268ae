use mcub::cava_bridge::{
    spectrum_message, CavaBridge, CavaEvent, CavaStep, FrameSkip, FrameStep, SpectrumMessage,
};
use mcub::cava_manager::{
    check_loopback, pids_in, read_wait_ms, take_byte, CavaFormat, CavaManager, EndEvent, EndStep,
    LoopbackStep, ReadResult, ReadStep, StartEvent, StartStep,
};
use mcub::config_manager::{get_cava_env_config, Config};

const SECOND: u64 = 1_000_000_000;

fn manager(format: &str, bars: u32) -> CavaManager {
    let mut m = CavaManager::new(&Config::default(), Some(format), Some(bars));
    assert_eq!(m.start(StartEvent::Settled(true)), StartStep::Started);
    m
}

fn frame(r: ReadResult) -> Vec<i32> {
    match r {
        ReadResult::Frame(v) => v,
        other => panic!("{other:?}"),
    }
}

#[test]
fn formats_by_name() {
    for f in [CavaFormat::Ascii, CavaFormat::Binary] {
        assert_eq!(CavaFormat::from_str(f.as_str()), f);
    }
    assert_eq!(CavaFormat::from_str("json"), CavaFormat::Ascii);
    let c = Config::default();
    let m = CavaManager::new(&c, None, None);
    assert_eq!(m.spectrum_bars, 16);
    assert_eq!(m.read_chunk_size, 128);
    let m = CavaManager::new(&c, Some(""), Some(0));
    assert_eq!(m.frame_size, 16);
    assert_eq!(CavaManager::new(&c, Some("binary"), Some(32)).cava_format, CavaFormat::Binary);
    assert_eq!(CavaManager::new(&c, Some("binary"), Some(200)).binary_header(), 72);
}

#[test]
fn the_settings_file_of_the_analyser() {
    let c = Config::default();
    let m = CavaManager::new(&c, Some("binary"), Some(8));
    let text = m.write_config(&c.cava);
    assert!(text.starts_with("[general]\nframerate = 60\nbars = 8\n"));
    assert!(text.contains("\n\n[input]\nmethod = alsa\nsource = hw:Loopback,1,0\n"));
    assert!(text.contains("data_format = binary\nbit_format = 8bit\n\n[smoothing]\n"));
    assert!(text.ends_with("[eq]\n1 = 1.0\n2 = 1.0\n3 = 1.0\n4 = 1.0\n5 = 1.0\n6 = 1.0\n7 = 1.0\n8 = 1.0\n"));
    assert!(!text.contains("gravity"));
    let m = CavaManager::new(&c, Some("ascii"), Some(8));
    assert!(m.write_config(&c.cava).contains("data_format = ascii\nascii_max_range = "));
}

#[test]
fn processes_that_are_in_the_way() {
    assert_eq!(pids_in("12\n x\n 7 \n-3\n0\n99999999999\n"), vec![12, 7]);
    let m = manager("binary", 4);
    assert_eq!(m.kill_existing(b"41\n42\n"), (vec![41, 42], 500));
    assert_eq!(m.kill_existing(b"41\n\xff\n43\n").0, vec![41, 43]);
    assert!(m.kill_existing(b"").0.is_empty());
    assert_eq!(CavaManager::command_line(), vec!["/usr/bin/cava", "-p", "/tmp/cava_config"]);
    assert_eq!(CavaManager::earlier_pattern(), "/usr/bin/cava -p /tmp/cava_config");
}

#[test]
fn the_loopback_device() {
    assert!(check_loopback(b"card 1: Loopback [Loopback]", b""));
    assert!(check_loopback(b"\xff", b"Loopback"));
    assert!(!check_loopback(b"card 0: PCH", b"no soundcards"));
    assert_eq!(CavaManager::wait_for_loopback(0, 0, false), LoopbackStep::Unavailable);
    assert_eq!(CavaManager::wait_for_loopback(3, 120, false), LoopbackStep::Wait(1000));
    assert_eq!(CavaManager::wait_for_loopback(3, 120, true), LoopbackStep::Ready(3));
    assert_eq!(CavaManager::wait_for_loopback(120, 120, false), LoopbackStep::Unavailable);
}

#[test]
fn the_start_of_the_analyser() {
    let mut m = CavaManager::new(&Config::default(), Some("binary"), Some(2));
    assert_eq!(m.read_data(true), ReadStep::Nothing);
    assert_eq!(m.start(StartEvent::ConfigWritten(false)), StartStep::Failed);
    assert_eq!(m.start(StartEvent::ConfigWritten(true)), StartStep::AwaitLoopback);
    assert_eq!(m.start(StartEvent::Loopback(true)), StartStep::Spawn);
    assert_eq!(m.start(StartEvent::Spawned(true)), StartStep::Settle(100));
    assert_eq!(m.start(StartEvent::Settled(true)), StartStep::Started);
    assert_eq!(m.read_data(false), ReadStep::Exited);
    assert_eq!(m.read_data(true), ReadStep::ReadBinary { wait: true });
    assert!(m.configure_fd());
    assert!(!m.configure_fd());
    m.read_binary(&[1], 64);
    assert_eq!(m.start(StartEvent::ConfigWritten(true)), StartStep::AwaitLoopback);
    assert!(m.binary_buffer.is_empty());
    assert!(m.configure_fd());
    assert_eq!(m.cleanup(EndEvent::Begin), EndStep::Terminate(1000));
    assert_eq!(m.cleanup(EndEvent::Waited(true)), EndStep::Kill);
    assert_eq!(m.cleanup(EndEvent::Waited(false)), EndStep::Reap);
    assert_eq!(m.cleanup(EndEvent::Ended), EndStep::RemoveSettings);
    assert_eq!(m.cleanup(EndEvent::Begin), EndStep::RemoveSettings);
    assert_eq!(manager("ascii", 2).read_data(true), ReadStep::ReadAscii);
}

#[test]
fn the_latest_frame_is_given() {
    let mut m = manager("binary", 3);
    assert!(matches!(m.read_binary(&[1, 2], 64), ReadResult::Nothing));
    assert_eq!(frame(m.read_binary(&[3], 64)), vec![1, 2, 3]);
    assert_eq!(frame(m.read_binary(&[1, 2, 3, 4, 5, 6, 7, 8], 64)), vec![4, 5, 6]);
    assert_eq!(m.binary_buffer, vec![7, 8]);
    assert_eq!(frame(m.read_binary(&[255], 2)), vec![7, 8]);
    assert!(m.binary_buffer.is_empty());
}

#[test]
fn frames_as_text() {
    let m = manager("ascii", 3);
    assert_eq!(frame(m.read_ascii(b"1;2;3;".to_vec(), 64)), vec![1, 2, 3]);
    assert_eq!(frame(m.read_ascii(b"1;x;2;3;4".to_vec(), 3)), vec![1, 2, 3]);
    assert!(matches!(m.read_ascii(b"1;2".to_vec(), 64), ReadResult::Nothing));
    assert!(matches!(m.read_ascii(b"".to_vec(), 64), ReadResult::Nothing));
    assert!(matches!(m.read_ascii(b"1;2;3\xff".to_vec(), 64), ReadResult::Nothing));
    let mut line = Vec::new();
    assert!(take_byte(&mut line, Some(b'1')));
    assert!(!take_byte(&mut line, Some(b'\n')));
    assert!(!take_byte(&mut line, None));
    assert_eq!(line, b"1");
    let mut line = vec![b'0'; 1022];
    assert!(!take_byte(&mut line, Some(b'1')));
    assert_eq!(line.len(), 1023);
    assert_eq!(read_wait_ms(0), 1);
    assert_eq!(read_wait_ms(16_666_667), 16);
    assert_eq!(read_wait_ms(65_536_000_000), 0);
}

#[test]
fn messages_of_frames() {
    match spectrum_message("binary", &vec![0, 255, 256, -1], 4) {
        SpectrumMessage::Binary { bars, header } => {
            assert_eq!(bars, vec![0, 255, 0, 255]);
            assert_eq!(header, 4);
        }
        other => panic!("{other:?}"),
    }
    let many: Vec<i32> = (0..100).collect();
    assert_eq!(spectrum_message("binary", &many, 4).size(), 66);
    let m = spectrum_message("json", &vec![1, 22], 4);
    assert_eq!(m.size(), 20);
    assert!(matches!(m, SpectrumMessage::Json(s) if s == "{\"t\":\"s\",\"d\":[1,22]}"));
}

#[test]
fn frames_are_left_out_for_a_while() {
    let mut s = FrameSkip::new();
    for n in [1, 2, 4, 8, 8] {
        assert!(s.pass());
        s.record(false);
        assert_eq!(s.count, n);
        for _ in 0..n {
            assert!(!s.pass());
        }
    }
    assert!(s.pass());
    s.record(true);
    assert_eq!(s.count, 0);
    assert!(s.pass());
}

#[test]
fn the_bridge_of_the_analyser() {
    let env = get_cava_env_config(Some("binary".to_string()), Some("4".to_string()));
    let mut b = CavaBridge::new(&Config::default(), env, 10);
    assert_eq!(b.cava.cava_format, CavaFormat::Binary);
    assert_eq!(b.take_frame(&ReadResult::Nothing), FrameStep::Rest(5_000_000));
    assert_eq!(b.take_frame(&ReadResult::Exited), FrameStep::Stop);
    let f = ReadResult::Frame(vec![1, 2, 3, 4]);
    assert_eq!(b.take_frame(&f), FrameStep::Send);
    let m = b.process_and_send(&vec![1, 2, 3, 4]);
    assert_eq!(m.size(), 6);
    b.count_frame(m.size());
    b.record_sent(false);
    assert_eq!(b.take_frame(&f), FrameStep::Skip);
    assert_eq!(b.take_frame(&f), FrameStep::Send);
    b.record_sent(true);
    assert!(b.report_stats(59 * SECOND).is_none());
    let r = b.report_stats(60 * SECOND + 10).unwrap();
    assert_eq!((r.frames, r.bytes_sent, r.elapsed_ns), (1, 6, 60 * SECOND));
    assert_eq!(b.stats_bytes_sent, 0);
    let (bars, size) = (b.cava.spectrum_bars, b.cava.frame_size);
    assert_eq!(b.cleanup(EndEvent::Begin), EndStep::RemoveSettings);
    assert_eq!((b.cava.spectrum_bars, b.cava.frame_size), (bars, size));
}

#[test]
fn how_the_bridge_of_the_analyser_comes_up() {
    assert_eq!(CavaBridge::run(CavaEvent::Connected(false)), CavaStep::Exit(1));
    assert_eq!(CavaBridge::run(CavaEvent::Connected(true)), CavaStep::Identify);
    assert_eq!(CavaBridge::run(CavaEvent::Identified(false)), CavaStep::Start(120));
    assert_eq!(CavaBridge::run(CavaEvent::Started(false)), CavaStep::Exit(1));
    assert_eq!(CavaBridge::run(CavaEvent::Started(true)), CavaStep::Loop);
    assert_eq!(CavaBridge::run(CavaEvent::Ended), CavaStep::Exit(0));
}
