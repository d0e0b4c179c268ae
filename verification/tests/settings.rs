use mcub::config_manager::{
    deserialize_eq_map, get_cava_env_config, Config, SettingsFile,
};
use mcub::error::McubError;
use mcub::logger::{resolve_log_dir, FileSink, LogLevel, Logger};

fn pair(k: &str, v: &str) -> (String, String) {
    (k.to_string(), v.to_string())
}

#[test]
fn default_settings() {
    let c = Config::default();
    assert_eq!(c.watcher.device_check_interval, 5);
    assert_eq!(c.bridge.device, "/dev/ttyACM1");
    assert_eq!(c.bridge.connection.baudrate, 115_200);
    assert_eq!(c.cava.framerate, 60);
    assert_eq!(c.cava.defaults.spectrum_bars, 16);
    assert_eq!(c.cava.eq.len(), 8);
    assert_eq!(c.mpd.port, 6600);
    assert_eq!(c.sysinfo.update_interval_ns, 2_000_000_000);
    assert_eq!(c.performance.max_queue_size, 60);
    assert_eq!(c.get_priority("critical"), -1);
    assert_eq!(c.get_priority("high"), 0);
    assert_eq!(c.get_priority("normal"), 1);
    assert_eq!(c.get_priority("low"), 2);
    assert_eq!(c.get_priority("other"), 1);
}

#[test]
fn settings_are_loaded() {
    assert_eq!(Config::settings_path(Some("/srv")), "/srv/shared/settings.json");
    assert_eq!(Config::settings_path(None), "shared/settings.json");
    let mut given = Config::default();
    given.cava.framerate = 30;
    let c = Config::load("p".to_string(), SettingsFile::Parsed(given)).unwrap();
    assert_eq!(c.cava.framerate, 30);
    assert_eq!(c.config_path, "p");
    let c = Config::load("p".to_string(), SettingsFile::Missing).unwrap();
    assert_eq!(c.cava.framerate, 60);
}

#[test]
fn settings_that_cannot_be_used() {
    match Config::load("p".to_string(), SettingsFile::Malformed("line 1".to_string())) {
        Err(e) => {
            assert!(matches!(e, McubError::Config(_)));
            assert_eq!(e.message(), "config: p: line 1");
        }
        Ok(_) => panic!(),
    }
    match Config::load("p".to_string(), SettingsFile::Unreadable("denied".to_string())) {
        Err(e) => {
            assert!(matches!(e, McubError::Io(_)));
            assert_eq!(e.message(), "io: denied");
        }
        Ok(_) => panic!(),
    }
}

#[test]
fn messages_of_errors() {
    assert_eq!(McubError::Nix("x".to_string()).message(), "nix: x");
    assert_eq!(McubError::Json("x".to_string()).message(), "json: x");
    assert_eq!(McubError::Serial("x".to_string()).message(), "serial: x");
    assert_eq!(McubError::Mpd("x".to_string()).message(), "mpd: x");
    assert_eq!(McubError::DeviceNotFound.message(), "device not found");
    assert_eq!(McubError::Timeout.message(), "timeout");
    assert_eq!(McubError::Disconnected.message(), "disconnected");
}

#[test]
fn gains_of_the_equaliser() {
    let eq = deserialize_eq_map(&vec![pair("1", "0.5"), pair("8", "2.0"), pair("9", "3.0"), pair("x", "4.0")]);
    assert_eq!(eq.len(), 8);
    assert_eq!(eq[0], "0.5");
    assert_eq!(eq[1], "1.0");
    assert_eq!(eq[7], "2.0");
}

#[test]
fn what_the_environment_tells_a_bridge() {
    let e = get_cava_env_config(Some("binary".to_string()), Some("32".to_string()));
    assert_eq!(e.device_format, "binary");
    assert_eq!(e.cava_format, "binary");
    assert_eq!(e.spectrum_bars, Some(32));
    let e = get_cava_env_config(None, Some("many".to_string()));
    assert_eq!(e.device_format, "json");
    assert_eq!(e.cava_format, "ascii");
    assert_eq!(e.spectrum_bars, None);
}

#[test]
fn levels_by_name() {
    for l in [
        LogLevel::Debug,
        LogLevel::Info,
        LogLevel::Okay,
        LogLevel::Warning,
        LogLevel::Error,
        LogLevel::Critical,
    ] {
        assert_eq!(LogLevel::from_str(l.as_str()), l);
    }
    assert_eq!(LogLevel::from_str("warning"), LogLevel::Warning);
    assert_eq!(LogLevel::from_str("loud"), LogLevel::Info);
}

#[test]
fn lines_of_the_log() {
    let logger = Logger::new(None, "WATCHER", None);
    assert_eq!(logger.debug("hidden", "T"), None);
    assert_eq!(logger.info("up", "T"), Some("[T] [WATCHER] [INFO] up".to_string()));
    assert_eq!(logger.ok("up", "T"), Some("[T] [WATCHER] [OK] up".to_string()));
    let mut c = Config::default();
    c.logging.level = "DEBUG".to_string();
    c.logging.timestamp.enable = false;
    let logger = Logger::new(Some(&c), "", None);
    assert_eq!(logger.debug("seen", ""), Some("[BRIDGE] [DEBUG] seen".to_string()));
    assert_eq!(logger.critical("seen", ""), Some("[BRIDGE] [CRITICAL] seen".to_string()));
    assert_eq!(logger.warning("{level}", ""), Some("[BRIDGE] [WARNING] {level}".to_string()));
    assert_eq!(logger.error("e", ""), Some("[BRIDGE] [ERROR] e".to_string()));
}

#[test]
fn where_the_log_goes() {
    assert_eq!(resolve_log_dir("/var/log", Some("/srv")), "/var/log");
    assert_eq!(resolve_log_dir("../../logs", Some("/srv")), "/srv/logs");
    assert_eq!(resolve_log_dir("./logs", Some("/srv")), "/srv/logs");
    assert_eq!(resolve_log_dir("../logs", None), "../logs");
    let c = Config::default();
    let place = Logger::log_place(&c.logging, "watcher", Some("/srv")).unwrap();
    assert_eq!(place.path, "/srv/logs/watcher.log");
    let place = Logger::log_place(&c.logging, "BRIDGE", Some("/srv")).unwrap();
    assert_eq!(place.path, "/srv/logs/bridge.log");
}

#[test]
fn the_log_is_rotated() {
    let mut c = Config::default();
    c.logging.file.max_size = 10;
    c.logging.file.backup_count = 3;
    let mut sink = FileSink::new("/l/bridge.log".to_string(), 0, &c.logging.file);
    assert!(!sink.write_line(8));
    assert!(sink.write_line(0));
    let moves = sink.rotate();
    let shown: Vec<(&str, &str)> = moves.iter().map(|m| (m.from.as_str(), m.to.as_str())).collect();
    assert_eq!(
        shown,
        vec![
            ("/l/bridge.log.2", "/l/bridge.log.3"),
            ("/l/bridge.log.1", "/l/bridge.log.2"),
            ("/l/bridge.log", "/l/bridge.log.1"),
        ]
    );
    sink.reopened(true);
    assert_eq!(sink.current_size, 0);
}
