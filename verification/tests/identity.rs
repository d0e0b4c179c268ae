use mcub::device_identifier::{
    detect_modes, device_type, identify, line_timeout, modes_text, truncate, DeviceFormat, DeviceId,
    DeviceType, IdData, IdEnvelope, IdentifyEvent, IdentifyNext, Modes,
};
use mcub::devices::{
    acm_devices, candidates, comes_before, find_devices, is_executable, sort_descending, without_repeats,
};
use mcub::error::McubError;
use mcub::serial_comm::{identify_request, ResetEvent, ResetStep};

fn list(words: &[&str]) -> Vec<String> {
    words.iter().map(|w| w.to_string()).collect()
}

fn envelope(t: &str, modes: &[&str], name: Option<&str>) -> IdEnvelope {
    IdEnvelope {
        t: t.to_string(),
        d: IdData { modes: list(modes), binary: true, bars: Some(32), name: name.map(String::from) },
    }
}

fn modes(mpd: bool, cava: bool, sysinfo: bool) -> Modes {
    Modes { mpd, cava, sysinfo }
}

#[test]
fn modes_of_a_device() {
    let name = Some("MPD Sysinfo unit".to_string());
    assert_eq!(detect_modes(&list(&["cava", "lamp"]), &name), modes(false, true, false));
    assert_eq!(detect_modes(&list(&["lamp"]), &name), modes(false, false, false));
    assert_eq!(detect_modes(&list(&[]), &name), modes(true, false, true));
    assert_eq!(detect_modes(&list(&[]), &None), modes(false, false, false));
    assert_eq!(modes_text(modes(true, false, true), ","), "mpd,sysinfo");
    assert_eq!(modes_text(modes(true, true, true), ", "), "mpd, cava, sysinfo");
    assert_eq!(modes_text(modes(false, false, false), ","), "");
}

#[test]
fn the_kind_of_a_device() {
    assert_eq!(device_type(modes(true, false, false)), Some(DeviceType::Mpd));
    assert_eq!(device_type(modes(false, true, false)), Some(DeviceType::Cava));
    assert_eq!(device_type(modes(false, false, true)), Some(DeviceType::Sysinfo));
    assert_eq!(device_type(modes(false, true, true)), Some(DeviceType::Hybrid));
    assert_eq!(device_type(modes(true, true, true)), Some(DeviceType::Hybrid));
    assert_eq!(device_type(modes(false, false, false)), None);
}

#[test]
fn a_device_gives_its_name() {
    let step = identify("/dev/a", IdentifyEvent::Opened(Ok(())));
    assert!(matches!(step.next, IdentifyNext::Reset(ResetStep::DropDtr(100))));
    let step = identify("/dev/a", IdentifyEvent::Reset(ResetEvent::Dropped));
    assert!(matches!(step.next, IdentifyNext::Reset(ResetStep::RaiseDtr(2000))));
    let step = identify("/dev/a", IdentifyEvent::Reset(ResetEvent::Drained(false)));
    assert!(matches!(step.next, IdentifyNext::Write(r) if r == identify_request()));
    let step = identify("/dev/a", IdentifyEvent::Written(Ok(())));
    assert!(matches!(step.next, IdentifyNext::Read));
    let step = identify("/dev/a", IdentifyEvent::Read(Some("{}".to_string())));
    assert_eq!(step.debug, Some("/dev/a: response={}".to_string()));
    assert!(matches!(step.next, IdentifyNext::Parse(s) if s == "{}"));
    let step = identify("/dev/a", IdentifyEvent::Parsed(Some(envelope("id", &["cava", "sysinfo"], None))));
    assert_eq!(
        step.debug,
        Some("/dev/a: modes=[cava,sysinfo], format=binary, bars=32".to_string())
    );
    match step.next {
        IdentifyNext::Done(Ok(id)) => assert_eq!(
            id,
            DeviceId {
                device_type: DeviceType::Hybrid,
                format: DeviceFormat::Binary,
                spectrum_bars: Some(32),
                has_sysinfo: true,
            }
        ),
        other => panic!("{other:?}"),
    }
}

#[test]
fn a_device_that_is_not_known() {
    let failed = |event: IdentifyEvent| {
        let step = identify("/dev/a", event);
        match step.next {
            IdentifyNext::Done(Err(e)) => (e.message(), step.debug),
            other => panic!("{other:?}"),
        }
    };
    let told = |s: &str| Some(s.to_string());
    assert_eq!(
        failed(IdentifyEvent::Opened(Err(McubError::Nix("ENOENT".to_string())))),
        ("nix: ENOENT".to_string(), told("/dev/a: serial error: nix: ENOENT"))
    );
    assert_eq!(
        failed(IdentifyEvent::Written(Err(McubError::Io("EIO".to_string())))),
        ("io: EIO".to_string(), told("/dev/a: write error: io: EIO"))
    );
    assert_eq!(
        failed(IdentifyEvent::Read(None)),
        ("timeout".to_string(), told("/dev/a: no response (timeout)"))
    );
    assert_eq!(failed(IdentifyEvent::Read(Some(String::new()))).0, "timeout");
    assert_eq!(
        failed(IdentifyEvent::Parsed(None)),
        ("config: invalid id JSON".to_string(), told("/dev/a: JSON decode error"))
    );
    assert_eq!(
        failed(IdentifyEvent::Parsed(Some(envelope("m", &["mpd"], None)))),
        ("config: invalid id envelope".to_string(), told("/dev/a: invalid response format"))
    );
    assert_eq!(
        failed(IdentifyEvent::Parsed(Some(envelope("id", &["lamp"], None)))),
        ("device not found".to_string(), None)
    );
}

#[test]
fn the_beginning_of_a_reply() {
    assert_eq!(truncate("abc", 3), "abc");
    assert_eq!(truncate("abcd", 3), "abc");
    assert_eq!(truncate("aéb", 2), "aé");
    assert_eq!(truncate("\u{1F3B5}x", 1), "\u{1F3B5}");
    assert_eq!(truncate("abc", 0), "");
    assert_eq!(truncate("", 5), "");
}

#[test]
fn how_long_a_read_may_take() {
    assert_eq!(line_timeout(2_000_000_000), 20);
    assert_eq!(line_timeout(50_000_000), 1);
    assert_eq!(line_timeout(60_000_000_000), 255);
}

#[test]
fn names_of_kinds_and_formats() {
    assert_eq!(DeviceType::Sysinfo.as_str(), "sysinfo");
    assert_eq!(DeviceFormat::Json.as_str(), "json");
    assert_eq!(DeviceFormat::Binary.as_str(), "binary");
}

#[test]
fn texts_in_order() {
    let texts = ["", "a", "ab", "b", "é", "\u{1F3B5}", "Z"];
    for a in texts {
        for b in texts {
            assert_eq!(comes_before(a, b), a < b);
        }
    }
    assert_eq!(
        sort_descending(list(&["/dev/ttyACM0", "/dev/ttyACM10", "/dev/ttyACM2"])),
        list(&["/dev/ttyACM2", "/dev/ttyACM10", "/dev/ttyACM0"])
    );
    assert!(sort_descending(list(&[])).is_empty());
}

#[test]
fn devices_that_are_tried() {
    let found = list(&["/dev/ttyACM0", "/dev/ttyUSB0", "/dev/ttyacm1", "/dev/ttyACM0"]);
    let acm = acm_devices(&found);
    assert_eq!(acm, list(&["/dev/ttyACM0", "/dev/ttyacm1"]));
    assert_eq!(candidates(&found, &list(&["/dev/ttyACM9"])), acm);
    assert_eq!(
        candidates(&list(&["/dev/ttyUSB0"]), &list(&["/dev/ttyACM9", "/dev/ttyACM9"])),
        list(&["/dev/ttyACM9"])
    );
    assert_eq!(without_repeats(&list(&["b", "a", "b"])), list(&["b", "a"]));
    assert_eq!(find_devices(&acm, &vec![true, true]), list(&["/dev/ttyacm1", "/dev/ttyACM0"]));
    assert_eq!(find_devices(&acm, &vec![true, false]), list(&["/dev/ttyACM0"]));
}

#[test]
fn files_that_can_be_run() {
    assert!(is_executable(0o100755));
    assert!(is_executable(0o100001));
    assert!(!is_executable(0o100644));
}
