//! Settings and their default values.
//!
//! Spans of time are whole numbers of nanoseconds, and the gains of the equaliser are decimal
//! texts: the reader of the settings file rounds them.
use crate::error::{McubError, McubResult};
use crate::paths::{join_path, joined_path};
use crate::text::{nat_within, read_nat, read_u32, same_text, views};
use vstd::prelude::*;
use vstd::string::*;

verus! {

#[derive(Debug)]
pub struct LoggingConfig {
    pub level: String,
    pub format: String,
    pub timestamp: TimestampConfig,
    pub file: FileLogConfig,
}

#[derive(Debug)]
pub struct TimestampConfig {
    pub enable: bool,
    pub format: String,
}

#[derive(Debug)]
pub struct FileLogConfig {
    pub enable: bool,
    pub dir: String,
    pub bridge_log: String,
    pub watcher_log: String,
    pub max_size: u64,
    pub backup_count: u32,
}

#[derive(Debug, Clone, Copy)]
pub struct WatcherConfig {
    pub device_check_interval: u32,
}

#[derive(Debug, Clone, Copy)]
pub struct ConnectionConfig {
    pub baudrate: u32,
    pub timeout_ns: u64,
    pub reconnect_delay_ns: u64,
    pub max_reconnect_attempts: u32,
}

#[derive(Debug)]
pub struct BridgeConfig {
    pub device: String,
    pub connection: ConnectionConfig,
}

#[derive(Debug)]
pub struct CavaInputConfig {
    pub method: String,
    pub source: String,
    pub channels: String,
}

#[derive(Debug)]
pub struct CavaOutputConfig {
    pub method: String,
    pub raw_target: String,
}

#[derive(Debug)]
pub struct CavaDefaultsConfig {
    pub data_format: String,
    pub spectrum_bars: u32,
    pub ascii_range: u32,
    pub autosens: u32,
    pub sensitivity: u32,
}

#[derive(Debug, Clone, Copy)]
pub struct CavaSmoothingConfig {
    pub noise_reduction: u32,
    pub monstercat: u32,
    pub waves: u32,
}

/// Settings of the analyser. `eq` holds the gains of the equaliser, each with one decimal.
#[derive(Debug)]
pub struct CavaConfig {
    pub framerate: u32,
    pub input: CavaInputConfig,
    pub output: CavaOutputConfig,
    pub defaults: CavaDefaultsConfig,
    pub smoothing: CavaSmoothingConfig,
    pub eq: [String; 8],
}

#[derive(Debug, Clone, Copy)]
pub struct MpdReconnectConfig {
    pub delay_ns: u64,
    pub max_attempts: u32,
}

#[derive(Debug)]
pub struct MpdConfig {
    pub host: String,
    pub port: u16,
    pub update_interval_ns: u64,
    pub reconnect: MpdReconnectConfig,
}

#[derive(Debug, Clone, Copy)]
pub struct SysinfoConfig {
    pub update_interval_ns: u64,
}

#[derive(Debug, Clone, Copy)]
pub struct PerformanceConfig {
    pub serial_poll_ms: u32,
    pub max_queue_size: u32,
}

#[derive(Debug, Clone, Copy)]
pub struct PriorityConfig {
    pub critical: i32,
    pub high: i32,
    pub normal: i32,
    pub low: i32,
}

/// A command that a device may ask for by its name.
#[derive(Debug)]
pub struct ActionEntry {
    pub name: String,
    pub command: String,
}

#[derive(Debug)]
pub struct Config {
    pub logging: LoggingConfig,
    pub watcher: WatcherConfig,
    pub bridge: BridgeConfig,
    pub cava: CavaConfig,
    pub mpd: MpdConfig,
    pub sysinfo: SysinfoConfig,
    pub performance: PerformanceConfig,
    pub priority_levels: PriorityConfig,
    pub actions: Vec<ActionEntry>,
    pub config_path: String,
}

// ---------------------------------------------------------------------------
// Default values
// ---------------------------------------------------------------------------

impl TimestampConfig {
    pub open spec fn is_default(self) -> bool {
        self.enable && self.format@ == "%Y-%m-%d %H:%M:%S"@
    }
}

impl Default for TimestampConfig {
    fn default() -> (r: Self)
        ensures
            r.is_default(),
    {
        TimestampConfig { enable: true, format: "%Y-%m-%d %H:%M:%S".to_owned() }
    }
}

impl FileLogConfig {
    pub open spec fn is_default(self) -> bool {
        &&& self.enable
        &&& self.dir@ == "../logs"@
        &&& self.bridge_log@ == "bridge.log"@
        &&& self.watcher_log@ == "watcher.log"@
        &&& self.max_size == 1_048_576
        &&& self.backup_count == 5
    }
}

impl Default for FileLogConfig {
    fn default() -> (r: Self)
        ensures
            r.is_default(),
    {
        FileLogConfig {
            enable: true,
            dir: "../logs".to_owned(),
            bridge_log: "bridge.log".to_owned(),
            watcher_log: "watcher.log".to_owned(),
            max_size: 1_048_576,
            backup_count: 5,
        }
    }
}

impl LoggingConfig {
    pub open spec fn is_default(self) -> bool {
        &&& self.level@ == "INFO"@
        &&& self.format@ == "[{timestamp}] [{component}] [{level}] {message}"@
        &&& self.timestamp.is_default()
        &&& self.file.is_default()
    }
}

impl Default for LoggingConfig {
    fn default() -> (r: Self)
        ensures
            r.is_default(),
    {
        LoggingConfig {
            level: "INFO".to_owned(),
            format: "[{timestamp}] [{component}] [{level}] {message}".to_owned(),
            timestamp: TimestampConfig::default(),
            file: FileLogConfig::default(),
        }
    }
}

impl Default for WatcherConfig {
    fn default() -> (r: Self)
        ensures
            r.device_check_interval == 5,
    {
        WatcherConfig { device_check_interval: 5 }
    }
}

impl ConnectionConfig {
    pub open spec fn is_default(self) -> bool {
        &&& self.baudrate == 115_200
        &&& self.timeout_ns == 100_000_000
        &&& self.reconnect_delay_ns == 100_000_000
        &&& self.max_reconnect_attempts == 10
    }
}

impl Default for ConnectionConfig {
    fn default() -> (r: Self)
        ensures
            r.is_default(),
    {
        ConnectionConfig {
            baudrate: 115_200,
            timeout_ns: 100_000_000,
            reconnect_delay_ns: 100_000_000,
            max_reconnect_attempts: 10,
        }
    }
}

impl BridgeConfig {
    pub open spec fn is_default(self) -> bool {
        self.device@ == "/dev/ttyACM1"@ && self.connection.is_default()
    }
}

impl Default for BridgeConfig {
    fn default() -> (r: Self)
        ensures
            r.is_default(),
    {
        BridgeConfig {
            device: "/dev/ttyACM1".to_owned(),
            connection: ConnectionConfig::default(),
        }
    }
}

impl CavaInputConfig {
    pub open spec fn is_default(self) -> bool {
        &&& self.method@ == "alsa"@
        &&& self.source@ == "hw:Loopback,1,0"@
        &&& self.channels@ == "stereo"@
    }
}

impl Default for CavaInputConfig {
    fn default() -> (r: Self)
        ensures
            r.is_default(),
    {
        CavaInputConfig {
            method: "alsa".to_owned(),
            source: "hw:Loopback,1,0".to_owned(),
            channels: "stereo".to_owned(),
        }
    }
}

impl CavaOutputConfig {
    pub open spec fn is_default(self) -> bool {
        self.method@ == "raw"@ && self.raw_target@ == "/dev/stdout"@
    }
}

impl Default for CavaOutputConfig {
    fn default() -> (r: Self)
        ensures
            r.is_default(),
    {
        CavaOutputConfig { method: "raw".to_owned(), raw_target: "/dev/stdout".to_owned() }
    }
}

impl CavaDefaultsConfig {
    pub open spec fn is_default(self) -> bool {
        &&& self.data_format@ == "json"@
        &&& self.spectrum_bars == 16
        &&& self.ascii_range == 8
        &&& self.autosens == 1
        &&& self.sensitivity == 100
    }
}

impl Default for CavaDefaultsConfig {
    fn default() -> (r: Self)
        ensures
            r.is_default(),
    {
        CavaDefaultsConfig {
            data_format: "json".to_owned(),
            spectrum_bars: 16,
            ascii_range: 8,
            autosens: 1,
            sensitivity: 100,
        }
    }
}

impl CavaSmoothingConfig {
    pub open spec fn is_default(self) -> bool {
        self.noise_reduction == 0 && self.monstercat == 0 && self.waves == 0
    }
}

impl Default for CavaSmoothingConfig {
    fn default() -> (r: Self)
        ensures
            r.is_default(),
    {
        CavaSmoothingConfig { noise_reduction: 0, monstercat: 0, waves: 0 }
    }
}

/// The gains of an equaliser that changes nothing.
pub open spec fn flat_eq() -> Seq<Seq<char>> {
    Seq::new(8, |i: int| "1.0"@)
}

/// The gains of an equaliser that changes nothing.
pub fn default_eq() -> (r: [String; 8])
    ensures
        views(r@) == flat_eq(),
{
    let r = [
        "1.0".to_owned(),
        "1.0".to_owned(),
        "1.0".to_owned(),
        "1.0".to_owned(),
        "1.0".to_owned(),
        "1.0".to_owned(),
        "1.0".to_owned(),
        "1.0".to_owned(),
    ];
    assert(views(r@) =~= flat_eq());
    r
}

impl CavaConfig {
    pub open spec fn is_default(self) -> bool {
        &&& self.framerate == 60
        &&& self.input.is_default()
        &&& self.output.is_default()
        &&& self.defaults.is_default()
        &&& self.smoothing.is_default()
        &&& views(self.eq@) == flat_eq()
    }
}

impl Default for CavaConfig {
    fn default() -> (r: Self)
        ensures
            r.is_default(),
    {
        CavaConfig {
            framerate: 60,
            input: CavaInputConfig::default(),
            output: CavaOutputConfig::default(),
            defaults: CavaDefaultsConfig::default(),
            smoothing: CavaSmoothingConfig::default(),
            eq: default_eq(),
        }
    }
}

impl MpdReconnectConfig {
    pub open spec fn is_default(self) -> bool {
        self.delay_ns == 5_000_000_000 && self.max_attempts == 30
    }
}

impl Default for MpdReconnectConfig {
    fn default() -> (r: Self)
        ensures
            r.is_default(),
    {
        MpdReconnectConfig { delay_ns: 5_000_000_000, max_attempts: 30 }
    }
}

impl MpdConfig {
    pub open spec fn is_default(self) -> bool {
        &&& self.host@ == "localhost"@
        &&& self.port == 6600
        &&& self.update_interval_ns == 1_000_000_000
        &&& self.reconnect.is_default()
    }
}

impl Default for MpdConfig {
    fn default() -> (r: Self)
        ensures
            r.is_default(),
    {
        MpdConfig {
            host: "localhost".to_owned(),
            port: 6600,
            update_interval_ns: 1_000_000_000,
            reconnect: MpdReconnectConfig::default(),
        }
    }
}

impl Default for SysinfoConfig {
    fn default() -> (r: Self)
        ensures
            r.update_interval_ns == 2_000_000_000,
    {
        SysinfoConfig { update_interval_ns: 2_000_000_000 }
    }
}

impl Default for PerformanceConfig {
    fn default() -> (r: Self)
        ensures
            r.serial_poll_ms == 5,
            r.max_queue_size == 60,
    {
        PerformanceConfig { serial_poll_ms: 5, max_queue_size: 60 }
    }
}

impl PriorityConfig {
    pub open spec fn is_default(self) -> bool {
        self.critical == -1 && self.high == 0 && self.normal == 1 && self.low == 2
    }

    /// The priority of a level, given by its name. A name of no level means `normal`.
    pub open spec fn of(self, level: Seq<char>) -> i32 {
        if level == "critical"@ {
            self.critical
        } else if level == "high"@ {
            self.high
        } else if level == "low"@ {
            self.low
        } else {
            self.normal
        }
    }
}

impl Default for PriorityConfig {
    fn default() -> (r: Self)
        ensures
            r.is_default(),
    {
        PriorityConfig { critical: -1, high: 0, normal: 1, low: 2 }
    }
}

impl Config {
    /// Every setting but the place of the settings file has its default value.
    pub open spec fn is_default(self) -> bool {
        &&& self.logging.is_default()
        &&& self.watcher.device_check_interval == 5
        &&& self.bridge.is_default()
        &&& self.cava.is_default()
        &&& self.mpd.is_default()
        &&& self.sysinfo.update_interval_ns == 2_000_000_000
        &&& self.performance.serial_poll_ms == 5
        &&& self.performance.max_queue_size == 60
        &&& self.priority_levels.is_default()
        &&& self.actions@.len() == 0
    }
}

impl Default for Config {
    fn default() -> (r: Self)
        ensures
            r.is_default(),
            r.config_path@.len() == 0,
    {
        Config {
            logging: LoggingConfig::default(),
            watcher: WatcherConfig::default(),
            bridge: BridgeConfig::default(),
            cava: CavaConfig::default(),
            mpd: MpdConfig::default(),
            sysinfo: SysinfoConfig::default(),
            performance: PerformanceConfig::default(),
            priority_levels: PriorityConfig::default(),
            actions: Vec::new(),
            config_path: String::new(),
        }
    }
}

// ---------------------------------------------------------------------------
// The equaliser
// ---------------------------------------------------------------------------

/// The band that a key of the equaliser table names: 1 to 8.
pub open spec fn eq_band(key: Seq<char>) -> Option<nat> {
    match nat_within(key, usize::MAX as int) {
        Some(n) if 1 <= n <= 8 => Some(n),
        _ => None,
    }
}

/// The gains that a table of the equaliser sets: 1.0 where no key names the band, and what the
/// last key that names it says elsewhere.
pub open spec fn eq_gains(table: Seq<(Seq<char>, Seq<char>)>) -> Seq<Seq<char>>
    decreases table.len(),
{
    if table.len() == 0 {
        flat_eq()
    } else {
        let before = eq_gains(table.drop_last());
        match eq_band(table.last().0) {
            Some(n) => before.update(n - 1, table.last().1),
            None => before,
        }
    }
}

/// The characters of a table of keys and values.
pub open spec fn table_view(table: Seq<(String, String)>) -> Seq<(Seq<char>, Seq<char>)> {
    Seq::new(table.len(), |i: int| (table[i].0@, table[i].1@))
}

/// The gains that the table of the equaliser sets. There is one for each of the eight bands.
pub fn deserialize_eq_map(table: &Vec<(String, String)>) -> (r: [String; 8])
    ensures
        views(r@) == eq_gains(table_view(table@)),
{
    let mut eq = default_eq();
    let ghost t = table_view(table@);
    assert(t.take(0).len() == 0);
    let mut i: usize = 0;
    while i < table.len()
        invariant
            i <= table@.len(),
            t == table_view(table@),
            views(eq@) == eq_gains(t.take(i as int)),
        decreases table.len() - i,
    {
        proof {
            assert(t.take(i + 1).drop_last() =~= t.take(i as int));
            assert(t.take(i + 1).last() == t[i as int]);
        }
        let ghost before = views(eq@);
        let entry = &table[i];
        match read_nat(entry.0.as_str(), usize::MAX as u64) {
            Some(n) => {
                if 1 <= n && n <= 8 {
                    let k: usize = (n - 1) as usize;
                    eq[k] = entry.1.clone();
                    assert(views(eq@) =~= before.update(k as int, entry.1@));
                }
            },
            None => {},
        }
        i = i + 1;
    }
    assert(t.take(i as int) =~= t);
    eq
}

// ---------------------------------------------------------------------------
// Loading
// ---------------------------------------------------------------------------

/// What came of reading the settings file.
pub enum SettingsFile {
    /// The file was read, and its content is valid.
    Parsed(Config),
    /// The file was read, and its content is not valid: the message of the reader.
    Malformed(String),
    /// There is no such file.
    Missing,
    /// The file could not be read: the message of the system.
    Unreadable(String),
}

impl Config {
    /// Where the settings file is looked for.
    pub open spec fn path_from(base_dir: Option<Seq<char>>) -> Seq<char> {
        match base_dir {
            Some(d) => join_path(d, "shared/settings.json"@),
            None => "shared/settings.json"@,
        }
    }

    /// Where the settings file is looked for.
    pub fn settings_path(base_dir: Option<&str>) -> (r: String)
        ensures
            r@ == Config::path_from(
                match base_dir {
                    Some(d) => Some(d@),
                    None => None,
                },
            ),
    {
        match base_dir {
            Some(d) => joined_path(d, "shared/settings.json"),
            None => "shared/settings.json".to_owned(),
        }
    }

    /// The settings, from what came of reading the file at `path`. Without a file every setting
    /// has its default value; a file that is not valid or cannot be read is an error.
    pub fn load(path: String, file: SettingsFile) -> (r: McubResult<Config>)
        ensures
            match file {
                SettingsFile::Parsed(c) => r matches Ok(k) && k == (Config {
                    config_path: path,
                    ..c
                }),
                SettingsFile::Malformed(e) => r matches Err(McubError::Config(m)) && m@ == path@
                    + ": "@ + e@,
                SettingsFile::Missing => r matches Ok(k) && k.is_default() && k.config_path == path,
                SettingsFile::Unreadable(e) => r == Err::<Config, McubError>(McubError::Io(e)),
            },
    {
        match file {
            SettingsFile::Parsed(c) => {
                let mut k = c;
                k.config_path = path;
                Ok(k)
            },
            SettingsFile::Malformed(e) => {
                let mut m = path;
                m.append(": ");
                m.append(e.as_str());
                Err(McubError::Config(m))
            },
            SettingsFile::Missing => {
                let mut k = Config::default();
                k.config_path = path;
                Ok(k)
            },
            SettingsFile::Unreadable(e) => Err(McubError::Io(e)),
        }
    }

    /// The priority of a level, given by its name.
    pub fn get_priority(&self, level: &str) -> (r: i32)
        ensures
            r == self.priority_levels.of(level@),
    {
        if same_text(level, "critical") {
            self.priority_levels.critical
        } else if same_text(level, "high") {
            self.priority_levels.high
        } else if same_text(level, "low") {
            self.priority_levels.low
        } else {
            self.priority_levels.normal
        }
    }
}

// ---------------------------------------------------------------------------
// What the watcher tells a bridge through its environment
// ---------------------------------------------------------------------------

#[derive(Debug)]
pub struct CavaEnvConfig {
    pub device_format: String,
    pub spectrum_bars: Option<u32>,
    pub cava_format: String,
}

/// The output format of the analyser for a device of the given format.
pub open spec fn analyser_format(device_format: Seq<char>) -> Seq<char> {
    if device_format == "binary"@ {
        "binary"@
    } else {
        "ascii"@
    }
}

/// The number of bars that a variable of the environment gives.
pub open spec fn env_bars(value: Option<Seq<char>>) -> Option<nat> {
    match value {
        Some(s) => nat_within(s, u32::MAX as int),
        None => None,
    }
}

/// Reads the two variables `MCUB_DEVICE_FORMAT` and `MCUB_SPECTRUM_BARS`, given by their values
/// where they are set.
pub fn get_cava_env_config(device_format: Option<String>, spectrum_bars: Option<String>) -> (r:
    CavaEnvConfig)
    ensures
        r.device_format@ == match device_format {
            Some(f) => f@,
            None => "json"@,
        },
        r.cava_format@ == analyser_format(r.device_format@),
        match r.spectrum_bars {
            Some(n) => env_bars(
                match spectrum_bars {
                    Some(s) => Some(s@),
                    None => None,
                },
            ) == Some(n as nat),
            None => env_bars(
                match spectrum_bars {
                    Some(s) => Some(s@),
                    None => None,
                },
            ) is None,
        },
{
    let device_format = match device_format {
        Some(f) => f,
        None => "json".to_owned(),
    };
    let spectrum_bars: Option<u32> = match spectrum_bars {
        Some(s) => read_u32(s.as_str()),
        None => None,
    };
    let cava_format = if same_text(device_format.as_str(), "binary") {
        "binary".to_owned()
    } else {
        "ascii".to_owned()
    };
    CavaEnvConfig { device_format, spectrum_bars, cava_format }
}

} // verus!
