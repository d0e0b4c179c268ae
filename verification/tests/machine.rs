use mcub::config_manager::SysinfoConfig;
use mcub::sysinfo_bridge::{
    collect_disk, collect_freq, collect_ip, collect_temp, first_word, read_counters, read_memory,
    CpuCounters, Interface, Memory, Readings, SysinfoBridge, SysinfoCollector, SysinfoData,
    SysinfoEvent, SysinfoStep,
};

const SECOND: u64 = 1_000_000_000;

fn counters(busy: i64, idle: i64) -> CpuCounters {
    CpuCounters { user: busy, nice: 0, system: 0, idle, iowait: 0, irq: 0, softirq: 0 }
}

fn interface(name: &str, address: Option<&str>, loopback: bool) -> Interface {
    Interface { name: name.to_string(), address: address.map(String::from), loopback }
}

fn nothing_read() -> Readings {
    Readings {
        stat: None,
        temp: None,
        meminfo: None,
        disk: None,
        load: None,
        up: None,
        interfaces: None,
        freq: None,
        time: "08:15".to_string(),
    }
}

#[test]
fn counters_of_the_processor() {
    assert_eq!(
        read_counters("cpu  1 2 3 4 5 6 7 8 9 10\ncpu0 1 1\n"),
        Some(CpuCounters { user: 1, nice: 2, system: 3, idle: 4, iowait: 5, irq: 6, softirq: 7 })
    );
    assert_eq!(read_counters("cpu 1 2 3 4 5 6\n"), None);
    assert_eq!(read_counters("cpu 1 2 x 4 5 6 7 8\n"), None);
    assert_eq!(read_counters(""), None);
}

#[test]
fn the_load_of_the_processor() {
    let mut c = SysinfoCollector::new();
    c.warmup(Some(counters(100, 100)));
    assert_eq!(c.collect_cpu(Some(counters(125, 175))), Some(25));
    assert_eq!(c.collect_cpu(Some(counters(125, 175))), Some(0));
    assert_eq!(c.collect_cpu(None), None);
    assert_eq!(c.collect_cpu(Some(counters(225, 175))), Some(100));
    assert_eq!(c.collect_cpu(Some(counters(224, 178))), Some(-50));
    assert_eq!(SysinfoCollector::new().collect_cpu(Some(counters(1, 1))), None);
    assert!(!c.takes(Some(counters(i64::MAX, 0))));
    assert!(c.takes(Some(counters(300, 300))));
}

#[test]
fn the_memory() {
    let m = read_memory("MemTotal:       1000 kB\nMemFree: 5 kB\nMemAvailable:    250 kB\nX\n").unwrap();
    assert_eq!(m, Memory { total: 1000, available: 250 });
    assert_eq!(m.collect_mem(), 75);
    assert_eq!(read_memory("MemTotal: x kB\n"), None);
    assert_eq!(read_memory("MemTotal:\n"), None);
    assert_eq!(read_memory("MemAvailable: 5 kB\n"), None);
    let m = read_memory("MemTotal: 10 kB\n").unwrap();
    assert_eq!(m.collect_mem(), 100);
    assert!(!Memory { total: i64::MAX, available: 0 }.fits());
}

#[test]
fn disk_and_frequency() {
    assert_eq!(collect_disk(1000, 333), Some(66));
    assert_eq!(collect_disk(0, 0), None);
    assert_eq!(collect_freq("1500999\n"), Some(1500));
    assert_eq!(collect_freq("-1999"), Some(-1));
    assert_eq!(collect_freq("fast"), None);
    assert_eq!(collect_temp(" 45678\n"), Some(45678));
    assert_eq!(first_word(" 0.52 0.58 0.59"), Some("0.52".to_string()));
    assert_eq!(first_word(" \n"), None);
}

#[test]
fn the_address_of_the_machine() {
    let all = vec![
        interface("lo", Some("127.0.0.1"), true),
        interface("docker0", Some("172.17.0.1"), false),
        interface("wlan0", Some("10.0.0.2"), false),
        interface("eth0", None, false),
        interface("end0", Some("10.0.0.1"), false),
    ];
    assert_eq!(collect_ip(&all), Some("10.0.0.1".to_string()));
    let mut some = all;
    some.truncate(4);
    assert_eq!(collect_ip(&some), Some("10.0.0.2".to_string()));
    some.truncate(2);
    assert_eq!(collect_ip(&some), Some("172.17.0.1".to_string()));
    some.truncate(1);
    assert_eq!(collect_ip(&some), None);
}

#[test]
fn the_message_of_the_machine() {
    let mut c = SysinfoCollector::new();
    c.warmup(Some(counters(0, 0)));
    let mut r = nothing_read();
    r.stat = Some("cpu 1 0 0 3 0 0 0".to_string());
    r.temp = Some("45.3".to_string());
    r.meminfo = Some("MemTotal: 4 kB\nMemAvailable: 1 kB".to_string());
    r.disk = Some((10, 5));
    r.load = Some("0.52".to_string());
    r.up = Some(123);
    r.interfaces = Some(vec![interface("eth0", Some("10.0.0.1"), false)]);
    r.freq = Some("1500000".to_string());
    r.time = "12:34".to_string();
    assert!(r.fits(&c));
    assert_eq!(
        c.build_json(r),
        "{\"t\":\"sys\",\"d\":{\"cpu\":25,\"temp\":45.3,\"mem\":75,\"disk\":50,\"load\":\"0.52\",\
         \"up\":123,\"ip\":\"10.0.0.1\",\"freq\":1500,\"time\":\"12:34\"}}"
    );
    assert_eq!(c.build_json(nothing_read()), "{\"t\":\"sys\",\"d\":{\"time\":\"08:15\"}}");
    let mut r = nothing_read();
    r.disk = Some((5, 10));
    assert!(!r.fits(&c));
    let d = SysinfoData {
        cpu: None,
        temp: None,
        mem: None,
        disk: None,
        load: Some("a\nb".to_string()),
        up: None,
        ip: None,
        freq: None,
        time: "08:15".to_string(),
    };
    assert_eq!(d.message(), "{\"t\":\"sys\",\"d\":{\"load\":\"a\\nb\",\"time\":\"08:15\"}}");
}

#[test]
fn the_bridge_of_the_machine() {
    let mut b = SysinfoBridge::new(&SysinfoConfig { update_interval_ns: SECOND / 4 }, 0);
    assert_eq!(b.update_interval_ns, 2 * SECOND);
    assert_eq!(b.rests(), 20);
    b.count_update(40);
    b.count_update(2);
    assert!(b.report_stats(60 * SECOND - 1).is_none());
    let r = b.report_stats(60 * SECOND).unwrap();
    assert_eq!((r.updates, r.bytes_sent), (2, 42));
    assert_eq!(b.stats_updates, 0);
    let b = SysinfoBridge::new(&SysinfoConfig { update_interval_ns: SECOND / 2 }, 0);
    assert_eq!(b.rests(), 5);
    assert_eq!(SysinfoBridge::run(SysinfoEvent::Connected(false)), SysinfoStep::Exit(1));
    assert_eq!(SysinfoBridge::run(SysinfoEvent::Connected(true)), SysinfoStep::Identify);
    assert_eq!(SysinfoBridge::run(SysinfoEvent::Identified(false)), SysinfoStep::Loop);
    assert_eq!(SysinfoBridge::run(SysinfoEvent::Ended), SysinfoStep::Exit(0));
}
