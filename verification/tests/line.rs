use mcub::config_manager::Config;
use mcub::error::McubError;
use mcub::json::{quote, spectrum_json};
use mcub::reconnection::Reconnection;
use mcub::serial_comm::{
    control_word, identify_request, poll_wait, reset, resolve_device_path, supported_speed,
    AskEvent, AskStep, ConnectEvent, ConnectStep, ControlBits, LineReader, ResetEvent, ResetStep,
    SerialComm,
};
use mcub::serial_queue::{Sent, SerialQueue, WorkerStep};

const SECOND: u64 = 1_000_000_000;

fn queue(max: usize) -> SerialQueue {
    let mut q = SerialQueue::new(max);
    assert!(q.start());
    q
}

fn next(q: &mut SerialQueue) -> Vec<u8> {
    match q.next_item() {
        WorkerStep::Write(d) => d,
        other => panic!("{other:?}"),
    }
}

#[test]
fn the_smallest_priority_leaves_first() {
    let mut q = queue(10);
    q.send(vec![1], 2);
    q.send(vec![2], 0);
    q.send(vec![3], 1);
    q.send(vec![4], 0);
    assert_eq!(next(&mut q), vec![2]);
    assert_eq!(next(&mut q), vec![4]);
    q.send(vec![5], 1);
    assert_eq!(next(&mut q), vec![3]);
    assert_eq!(next(&mut q), vec![5]);
    assert_eq!(next(&mut q), vec![1]);
    assert!(matches!(q.next_item(), WorkerStep::Wait(10)));
}

#[test]
fn a_full_queue_takes_no_more() {
    let mut q = queue(2);
    assert!(matches!(q.send(vec![1], 0), Sent::Queued));
    assert!(matches!(q.send(vec![2], 0), Sent::Queued));
    assert!(matches!(q.send(vec![3], 0), Sent::Full));
    assert!(matches!(q.send(vec![4], -1), Sent::WriteNow(_)));
    assert_eq!(q.stats().peak_depth, 2);
    assert_eq!(q.stats().peak_depth, 0);
}

#[test]
fn a_queue_that_does_not_run() {
    let mut q = SerialQueue::new(2);
    assert!(matches!(q.send(vec![1], 0), Sent::NotRunning));
    assert!(matches!(q.next_item(), WorkerStep::Exit));
    assert!(q.start());
    assert!(!q.start());
    assert!(q.stop());
    assert!(!q.stop());
}

#[test]
fn a_device_that_fails_three_times_is_gone() {
    let mut q = queue(2);
    assert!(q.write_to_device(true, 30).ok);
    assert!(!q.write_to_device(false, 0).lost);
    assert!(!q.write_to_device(false, 0).lost);
    assert!(q.write_to_device(false, 0).lost);
    assert!(!q.can_write());
    assert!(!q.write_to_device(false, 0).lost);
    assert!(matches!(q.send(vec![1], -1), Sent::Disconnected));
    assert!(matches!(q.next_item(), WorkerStep::Exit));
}

#[test]
fn a_write_between_failures_ends_their_row() {
    let mut q = queue(2);
    for ok in [false, false, true, false, false] {
        q.write_to_device(ok, 0);
    }
    assert!(q.can_write());
    assert!(q.write_to_device(false, 0).lost);
}

#[test]
fn figures_of_the_queue() {
    let mut q = queue(2);
    q.write_to_device(true, 10);
    q.write_to_device(true, 30);
    let s = q.stats();
    assert_eq!(s.writes, 2);
    assert_eq!(s.write_max_ns, 30);
    assert_eq!(s.write_avg_ns(), 20);
    assert_eq!(q.stats().write_avg_ns(), 0);
}

#[test]
fn a_message_is_a_line() {
    let mut q = queue(4);
    q.send_json("{\"t\":\"é\"}", 0);
    assert_eq!(next(&mut q), "{\"t\":\"é\"}\n".as_bytes());
    q.send_binary_spectrum(&[1, 2, 3], 3, 0xCA, 0);
    assert_eq!(next(&mut q), vec![0xCA, 3, 1, 2, 3]);
}

#[test]
fn a_message_is_read_back() {
    let text = "{\"t\":\"id\",\"d\":{\"name\":\"Ünit\"}}";
    let mut q = queue(4);
    q.send_json(text, 0);
    let mut bytes = next(&mut q);
    bytes.extend_from_slice(b"rest\r\n");
    for cut in 0..bytes.len() {
        let mut r = LineReader::new();
        r.take(&bytes[..cut]);
        r.take(&bytes[cut..]);
        assert!(r.complete());
        assert_eq!(r.finish(), Some(text.to_string()));
    }
}

#[test]
fn lines_that_are_no_text() {
    let mut r = LineReader::new();
    assert!(!r.take(b"a\rb"));
    assert!(!r.complete());
    assert_eq!(r.finish(), Some("ab".to_string()));
    let mut r = LineReader::new();
    r.take(&[0xff, 0xfe, b'\n']);
    assert!(r.complete());
    assert_eq!(r.finish(), None);
    assert_eq!(LineReader::new().finish(), None);
    let mut r = LineReader::new();
    assert!(r.take(&vec![b'x'; 4097]));
}

#[test]
fn strings_of_json() {
    assert_eq!(quote("a\"b\\c"), "\"a\\\"b\\\\c\"");
    assert_eq!(quote("\n\t\r\u{8}\u{c}"), "\"\\n\\t\\r\\b\\f\"");
    assert_eq!(quote("\u{1}\u{1f}é/"), "\"\\u0001\\u001fé/\"");
    assert_eq!(spectrum_json(&vec![0, -5, 255]), "{\"t\":\"s\",\"d\":[0,-5,255]}");
    assert_eq!(spectrum_json(&vec![]), "{\"t\":\"s\",\"d\":[]}");
    for s in ["", "plain", "a\nb", "\u{0}", "\"", "\\", "é\u{1F3B5}"] {
        assert!(quote(s).chars().all(|c| c >= ' '));
        assert_eq!(serde_json::from_str::<String>(&quote(s)).unwrap(), s);
    }
}

#[test]
fn different_texts_have_different_strings() {
    let texts = ["", "\\", "\\n", "\n", "n", "\\u0000", "\u{0}"];
    for a in texts {
        for b in texts {
            assert_eq!(quote(a) == quote(b), a == b);
        }
    }
}

#[test]
fn settings_of_the_line() {
    assert_eq!(supported_speed(9600), 9600);
    assert_eq!(supported_speed(115_200), 115_200);
    assert_eq!(supported_speed(1), 115_200);
    let bits = ControlBits { set: 0b1, clear: 0b10, size_mask: 0b1100, eight_bits: 0b1100 };
    assert_eq!(control_word(0b0110, bits), 0b1101);
    assert_eq!(poll_wait(20, 50), 50);
    assert_eq!(poll_wait(70_000, 50), 4464);
    assert_eq!(identify_request(), "{\"t\":\"id\",\"c\":\"identify\"}\n");
}

#[test]
fn the_device_to_open() {
    assert_eq!(resolve_device_path(Some("/dev/a"), "/dev/b", true).unwrap(), "/dev/a");
    assert_eq!(resolve_device_path(Some(""), "/dev/b", true).unwrap(), "/dev/b");
    assert_eq!(resolve_device_path(None, "/dev/b", false).unwrap_err().message(), "device not found");
    assert!(resolve_device_path(None, "", true).is_err());
}

fn begin(named: Option<&str>, device: &str, exists: bool) -> ConnectEvent {
    ConnectEvent::Begin { named: named.map(String::from), device: device.to_string(), exists }
}

fn open(c: &mut SerialComm) {
    match c.connect(begin(Some("/dev/a"), "/dev/b", true)) {
        ConnectStep::Open(path, rest) => {
            assert_eq!(rest, 500);
            assert_eq!(path, "/dev/a");
            let opened = ConnectEvent::Opened { path, result: Ok(()) };
            assert!(matches!(c.connect(opened), ConnectStep::Connected));
        }
        other => panic!("{other:?}"),
    }
    assert_eq!(c.device_path, "/dev/a");
    let q = c.queue.as_ref().unwrap();
    assert_eq!((q.sequence_counter, q.consecutive_errors, q.stats.writes), (0, 0, 0));
}

#[test]
fn a_line_that_cannot_be_opened_is_closed() {
    let mut c = SerialComm::new(&Config::default());
    open(&mut c);
    match c.connect(begin(None, "/dev/b", false)) {
        ConnectStep::Failed(e) => assert_eq!(e.message(), "device not found"),
        other => panic!("{other:?}"),
    }
    assert!(c.send_message("x", 0).is_none());
    assert_eq!(c.read_message(50), None);
    open(&mut c);
    assert!(matches!(c.connect(begin(None, "/dev/b", true)), ConnectStep::Open(_, 500)));
    let failed =
        ConnectEvent::Opened { path: "/dev/b".to_string(), result: Err(McubError::Timeout) };
    assert!(matches!(c.connect(failed), ConnectStep::Failed(McubError::Timeout)));
    assert!(c.send_message("x", 0).is_none());
}

#[test]
fn a_device_is_reset_in_order() {
    let mut pending = 3;
    let mut steps = Vec::new();
    let mut event = ResetEvent::Begin;
    loop {
        let step = reset(event);
        steps.push(step);
        event = match step {
            ResetStep::DropDtr(_) => ResetEvent::Dropped,
            ResetStep::RaiseDtr(_) => ResetEvent::Raised,
            ResetStep::Drain(_) => {
                let some = pending > 0;
                if some {
                    pending -= 1;
                }
                ResetEvent::Drained(some)
            }
            ResetStep::Ready => break,
        };
    }
    assert_eq!(
        steps,
        vec![
            ResetStep::DropDtr(100),
            ResetStep::RaiseDtr(2000),
            ResetStep::Drain(0),
            ResetStep::Drain(50),
            ResetStep::Drain(50),
            ResetStep::Drain(50),
            ResetStep::Ready,
        ]
    );
}

#[test]
fn a_device_is_read_twice() {
    let mut c = SerialComm::new(&Config::default());
    assert!(matches!(c.identify_device(AskEvent::Begin), AskStep::Done(None)));
    open(&mut c);
    assert!(matches!(
        c.identify_device(AskEvent::Begin),
        AskStep::Reset(ResetStep::DropDtr(100))
    ));
    let goes_on = |e: ResetEvent| c.identify_device(AskEvent::Reset(e));
    assert!(matches!(goes_on(ResetEvent::Dropped), AskStep::Reset(ResetStep::RaiseDtr(2000))));
    assert!(matches!(goes_on(ResetEvent::Raised), AskStep::Reset(ResetStep::Drain(0))));
    assert!(matches!(goes_on(ResetEvent::Drained(true)), AskStep::Reset(ResetStep::Drain(50))));
    match goes_on(ResetEvent::Drained(false)) {
        AskStep::Write(request) => assert_eq!(request, "{\"t\":\"id\",\"c\":\"identify\"}\n"),
        other => panic!("{other:?}"),
    }
    assert!(matches!(c.identify_device(AskEvent::Written(false)), AskStep::Done(None)));
    assert!(matches!(c.identify_device(AskEvent::Written(true)), AskStep::Read(2000)));
    let line = || Some("x".to_string());
    assert!(matches!(c.identify_device(AskEvent::First(line())), AskStep::Done(Some(_))));
    assert!(matches!(c.identify_device(AskEvent::First(None)), AskStep::RestThenRead(200, 2000)));
    assert!(matches!(c.identify_device(AskEvent::Second(line())), AskStep::Done(Some(_))));
    assert!(matches!(c.identify_device(AskEvent::Second(None)), AskStep::Done(None)));
}

#[test]
fn a_line_is_opened_and_closed() {
    let mut c = SerialComm::new(&Config::default());
    assert!(c.send_message("x", 0).is_none());
    open(&mut c);
    assert!(matches!(c.send_message("x", 0), Some(Sent::Queued)));
    assert!(matches!(c.send_binary_spectrum(&[1], 1, -1), Some(Sent::WriteNow(_))));
    assert_eq!(c.queue_stats().unwrap().peak_depth, 1);
    assert_eq!(c.get_priority("high"), 0);
    assert_eq!(c.read_message(0), Some(5));
    assert_eq!(c.read_message(50), Some(50));
    assert!(c.close());
    assert_eq!(c.read_message(50), None);
    assert!(!c.close());
    assert!(c.queue_stats().is_none());
    assert!(c.should_reconnect(0).allowed);
}

#[test]
fn the_pace_of_attempts() {
    let mut r = Reconnection::new(3, 10 * SECOND);
    assert_eq!(r.max_attempts(), 3);
    let mut now = 0;
    let waits = [10, 20, 40, 60, 60, 60, 60];
    let mut reports = Vec::new();
    for w in waits {
        let a = r.should_attempt("x", now);
        assert!(a.allowed);
        reports.push(a.report);
        assert!(!r.should_attempt("x", now + SECOND).allowed);
        now += 2 * w * SECOND;
    }
    assert_eq!(reports[0], Some("x: retry 1".to_string()));
    assert_eq!(reports[4], Some("x: retry 5".to_string()));
    assert_eq!(reports[5], Some("x: retry suppressed (interval=60s)".to_string()));
    assert_eq!(reports[6], None);
    r.reset();
    assert_eq!(r.current_delay, 10 * SECOND);
}
