//! Log lines, and the log file with its backups.
use crate::config_manager::{Config, FileLogConfig, LoggingConfig};
use crate::paths::{
    extension, is_absolute, join_path, joined_path, names_file, split_extension, with_extension,
};
use crate::pieces::{after_prefix, begins_with, match_at, occurs_at, starts_with};
use crate::text::{dec, push_dec, same_text, to_chars, to_upper, upper};
use vstd::prelude::*;
use vstd::string::*;
use vstd::utf8::is_ascii_chars;

verus! {

// ---------------------------------------------------------------------------
// Levels
// ---------------------------------------------------------------------------

#[derive(Debug, Clone, Copy, PartialEq, Eq, Structural)]
pub enum LogLevel {
    Debug,
    Info,
    Okay,
    Warning,
    Error,
    Critical,
}

impl LogLevel {
    /// The weight of the level: a heavier one is more important.
    pub open spec fn weight(self) -> u8 {
        match self {
            LogLevel::Debug => 10,
            LogLevel::Info => 20,
            LogLevel::Okay => 25,
            LogLevel::Warning => 30,
            LogLevel::Error => 40,
            LogLevel::Critical => 50,
        }
    }

    /// The name of the level.
    pub open spec fn name(self) -> Seq<char> {
        match self {
            LogLevel::Debug => "DEBUG"@,
            LogLevel::Info => "INFO"@,
            LogLevel::Okay => "OK"@,
            LogLevel::Warning => "WARNING"@,
            LogLevel::Error => "ERROR"@,
            LogLevel::Critical => "CRITICAL"@,
        }
    }

    /// The level that a text names, in capitals or not; a text that names none means `Info`.
    pub open spec fn named(s: Seq<char>) -> LogLevel {
        let u = upper(s);
        if u == "DEBUG"@ {
            LogLevel::Debug
        } else if u == "OK"@ {
            LogLevel::Okay
        } else if u == "WARNING"@ {
            LogLevel::Warning
        } else if u == "ERROR"@ {
            LogLevel::Error
        } else if u == "CRITICAL"@ {
            LogLevel::Critical
        } else {
            LogLevel::Info
        }
    }

    /// The level that a text names, in capitals or not.
    pub fn from_str(s: &str) -> (r: LogLevel)
        ensures
            r == LogLevel::named(s@),
    {
        let u = to_upper(s);
        let u = u.as_str();
        if same_text(u, "DEBUG") {
            LogLevel::Debug
        } else if same_text(u, "OK") {
            LogLevel::Okay
        } else if same_text(u, "WARNING") {
            LogLevel::Warning
        } else if same_text(u, "ERROR") {
            LogLevel::Error
        } else if same_text(u, "CRITICAL") {
            LogLevel::Critical
        } else {
            LogLevel::Info
        }
    }

    /// The name of the level.
    pub fn as_str(self) -> (r: &'static str)
        ensures
            r@ == self.name(),
    {
        match self {
            LogLevel::Debug => "DEBUG",
            LogLevel::Info => "INFO",
            LogLevel::Okay => "OK",
            LogLevel::Warning => "WARNING",
            LogLevel::Error => "ERROR",
            LogLevel::Critical => "CRITICAL",
        }
    }

    /// The weight of the level.
    pub fn rank(self) -> (r: u8)
        ensures
            r == self.weight(),
    {
        match self {
            LogLevel::Debug => 10,
            LogLevel::Info => 20,
            LogLevel::Okay => 25,
            LogLevel::Warning => 30,
            LogLevel::Error => 40,
            LogLevel::Critical => 50,
        }
    }
}

/// The name of a level names that level.
pub proof fn law_level_name(level: LogLevel)
    ensures
        LogLevel::named(level.name()) == level,
{
    reveal_strlit("DEBUG");
    reveal_strlit("INFO");
    reveal_strlit("OK");
    reveal_strlit("WARNING");
    reveal_strlit("ERROR");
    reveal_strlit("CRITICAL");
    assert(upper(level.name()) =~= level.name());
    let n = level.name();
    match level {
        LogLevel::Debug => {},
        LogLevel::Okay => {
            assert(n.len() != "DEBUG"@.len());
        },
        LogLevel::Info => {
            assert(n.len() == 4);
        },
        LogLevel::Warning => {
            assert(n.len() == 7);
        },
        LogLevel::Error => {
            assert(n[0] == 'E');
        },
        LogLevel::Critical => {
            assert(n.len() == 8);
        },
    }
}

// ---------------------------------------------------------------------------
// Lines
// ---------------------------------------------------------------------------

/// What goes into a log line.
pub struct LineParts {
    /// The time, where times are shown.
    pub timestamp: Option<Seq<char>>,
    pub component: Seq<char>,
    pub level: Seq<char>,
    pub message: Seq<char>,
}

/// The part of the line that `format[i..]` describes. A name in braces stands for what it names,
/// and any other character for itself. Where times are not shown, the time goes, and with it the
/// square brackets round it and one blank behind them.
pub open spec fn render_from(format: Seq<char>, i: int, p: LineParts) -> Seq<char>
    decreases
            (if i < format.len() {
                format.len() - i
            } else {
                0
            }),
{
    if i >= format.len() {
        Seq::empty()
    } else if p.timestamp is None && occurs_at(format, "[{timestamp}]"@, i) {
        let j = i + 13;
        if j < format.len() && format[j] == ' ' {
            render_from(format, j + 1, p)
        } else {
            render_from(format, j, p)
        }
    } else if occurs_at(format, "{timestamp}"@, i) {
        match p.timestamp {
            Some(t) => t + render_from(format, i + 11, p),
            None => render_from(format, i + 11, p),
        }
    } else if occurs_at(format, "{component}"@, i) {
        p.component + render_from(format, i + 11, p)
    } else if occurs_at(format, "{level}"@, i) {
        p.level + render_from(format, i + 7, p)
    } else if occurs_at(format, "{message}"@, i) {
        p.message + render_from(format, i + 9, p)
    } else {
        seq![format[i]] + render_from(format, i + 1, p)
    }
}

// ---------------------------------------------------------------------------
// The log file
// ---------------------------------------------------------------------------

/// The path of the backup with the given number: `x.log` has the backups `x.log.1`, `x.log.2`
/// and so on.
pub open spec fn backup_path(path: Seq<char>, number: nat) -> Seq<char> {
    with_extension(path, extension(path).push('.') + dec(number))
}

/// The file that becomes the backup with the given number: the log file itself becomes the first.
pub open spec fn backup_source(path: Seq<char>, number: nat) -> Seq<char> {
    if number > 1 {
        backup_path(path, (number - 1) as nat)
    } else {
        path
    }
}

/// The moves of a rotation, in the order in which they are made: from the oldest backup to the
/// log file, each becomes the backup with the next number.
pub open spec fn rotation_moves(path: Seq<char>, backups: nat) -> Seq<(Seq<char>, Seq<char>)> {
    Seq::new(
        backups,
        |i: int|
            (
                backup_source(path, (backups - i) as nat),
                backup_path(path, (backups - i) as nat),
            ),
    )
}

/// A move of a rotation.
#[derive(Debug)]
pub struct Move {
    pub from: String,
    pub to: String,
}

/// The characters of the paths of each move.
pub open spec fn moves_view(moves: Seq<Move>) -> Seq<(Seq<char>, Seq<char>)> {
    Seq::new(moves.len(), |i: int| (moves[i].from@, moves[i].to@))
}

/// No move of a rotation falls on a file that a later move still needs: each move but the first
/// fills the place that the move before it left.
pub proof fn law_rotation_keeps_backups(path: Seq<char>, backups: nat, i: int)
    requires
        0 < i < backups,
    ensures
        rotation_moves(path, backups)[i].1 == rotation_moves(path, backups)[i - 1].0,
        rotation_moves(path, backups)[backups - 1].0 == path,
{
}

/// The log file that is written to, by its path and size.
#[derive(Debug)]
pub struct FileSink {
    pub path: String,
    pub current_size: u64,
    pub max_size: u64,
    pub backup_count: u32,
}

/// Where a log file goes: its directory, and its path.
#[derive(Debug)]
pub struct LogPlace {
    pub dir: String,
    pub path: String,
}

impl FileSink {
    /// A log file that was opened and has the given size.
    pub fn new(path: String, size: u64, settings: &FileLogConfig) -> (r: FileSink)
        ensures
            r.path == path,
            r.current_size == size,
            r.max_size == settings.max_size,
            r.backup_count == settings.backup_count,
    {
        FileSink {
            path,
            current_size: size,
            max_size: settings.max_size,
            backup_count: settings.backup_count,
        }
    }

    /// The file has reached its limit, if it has one.
    pub open spec fn is_full(self) -> bool {
        self.max_size > 0 && self.current_size >= self.max_size
    }

    /// Counts a line of which `written` bytes went into the file, and the line feed behind it.
    /// Returns whether the file is to be rotated.
    pub fn write_line(&mut self, written: u64) -> (rotate: bool)
        requires
            old(self).current_size + written + 1 <= u64::MAX,
        ensures
            *final(self) == (FileSink {
                current_size: (old(self).current_size + written + 1) as u64,
                ..*old(self)
            }),
            rotate == final(self).is_full(),
    {
        self.current_size = self.current_size + written + 1;
        self.max_size > 0 && self.current_size >= self.max_size
    }

    /// The moves of a rotation of the file.
    pub fn rotate(&self) -> (r: Vec<Move>)
        requires
            names_file(self.path@),
        ensures
            moves_view(r@) == rotation_moves(self.path@, self.backup_count as nat),
    {
        let mut r: Vec<Move> = Vec::new();
        let n: u32 = self.backup_count;
        let mut i: u32 = n;
        while i > 0
            invariant
                i <= n,
                n == self.backup_count,
                moves_view(r@) =~= rotation_moves(self.path@, n as nat).take(n - i),
            decreases i,
        {
            let ghost before = moves_view(r@);
            let from = if i > 1 {
                self.backup(i - 1)
            } else {
                self.path.clone()
            };
            let to = self.backup(i);
            r.push(Move { from, to });
            assert(moves_view(r@) =~= before.push((from@, to@)));
            i = i - 1;
        }
        assert(moves_view(r@) =~= rotation_moves(self.path@, n as nat));
        r
    }

    /// The path of the backup with the given number.
    fn backup(&self, number: u32) -> (r: String)
        ensures
            r@ == backup_path(self.path@, number as nat),
    {
        let (stem, ext) = split_extension(self.path.as_str());
        let mut r = stem;
        r.push('.');
        r.append(ext.as_str());
        r.push('.');
        push_dec(&mut r, number as u64);
        assert(r@ =~= backup_path(self.path@, number as nat));
        r
    }

    /// The file was opened again after a rotation, or could not be: where it was, it counts from
    /// the beginning.
    pub fn reopened(&mut self, opened: bool)
        ensures
            opened ==> *final(self) == (FileSink { current_size: 0, ..*old(self) }),
            !opened ==> *final(self) == *old(self),
    {
        if opened {
            self.current_size = 0;
        }
    }
}

/// `dir` without the steps upwards at its beginning.
pub open spec fn without_updirs(dir: Seq<char>) -> Seq<char>
    decreases dir.len(),
{
    if dir.len() >= 3 && starts_with(dir, "../"@) {
        without_updirs(dir.skip(3))
    } else {
        dir
    }
}

/// The directory of the log files. One that begins at the root stands for itself. Any other is
/// seen from the base directory, if there is one, without the steps upwards and the step on the
/// spot at its beginning.
pub open spec fn log_dir(dir: Seq<char>, base_dir: Option<Seq<char>>) -> Seq<char> {
    if is_absolute(dir) {
        dir
    } else {
        match base_dir {
            None => dir,
            Some(base) => {
                let d = without_updirs(dir);
                join_path(
                    base,
                    if starts_with(d, "./"@) {
                        d.skip(2)
                    } else {
                        d
                    },
                )
            },
        }
    }
}

/// The directory of the log files.
pub fn resolve_log_dir(dir: &str, base_dir: Option<&str>) -> (r: String)
    ensures
        r@ == log_dir(
            dir@,
            match base_dir {
                Some(b) => Some(b@),
                None => None,
            },
        ),
{
    proof {
        reveal_strlit("../");
        reveal_strlit("./");
    }
    let v = to_chars(dir);
    if v.len() > 0 && v[0] == '/' {
        return dir.to_owned();
    }
    match base_dir {
        None => dir.to_owned(),
        Some(base) => {
            let mut rest = dir.to_owned();
            while begins_with(rest.as_str(), "../")
                invariant
                    "../"@.len() == 3,
                    without_updirs(rest@) == without_updirs(dir@),
                ensures
                    !starts_with(rest@, "../"@),
                    without_updirs(rest@) == without_updirs(dir@),
                decreases rest@.len(),
            {
                match after_prefix(rest.as_str(), "../") {
                    Some(t) => {
                        assert(rest@.len() >= 3);
                        rest = t;
                    },
                    None => {},
                }
            }
            assert(without_updirs(dir@) == rest@);
            match after_prefix(rest.as_str(), "./") {
                Some(t) => joined_path(base, t.as_str()),
                None => joined_path(base, rest.as_str()),
            }
        },
    }
}

// ---------------------------------------------------------------------------
// The logger
// ---------------------------------------------------------------------------

/// A logger: which lines it lets through, what they look like, and the file they go to.
#[derive(Debug)]
pub struct Logger {
    pub level: LogLevel,
    pub component: String,
    pub format: String,
    pub timestamp_enable: bool,
    pub timestamp_format: String,
    pub file_sink: Option<FileSink>,
}

/// The name of the component: a bridge where none is given.
pub open spec fn component_name(component: Seq<char>) -> Seq<char> {
    if component.len() == 0 {
        "BRIDGE"@
    } else {
        component
    }
}

impl LoggingConfig {
    /// Where the log file of a component goes.
    pub open spec fn place(
        self,
        component: Seq<char>,
        base_dir: Option<Seq<char>>,
    ) -> (Seq<char>, Seq<char>) {
        let dir = log_dir(self.file.dir@, base_dir);
        let name = if upper(component) == "WATCHER"@ {
            self.file.watcher_log@
        } else {
            self.file.bridge_log@
        };
        (dir, join_path(dir, name))
    }
}

impl Logger {
    /// Where the log file of a component goes; nowhere, if there is to be none.
    pub fn log_place(logging: &LoggingConfig, component: &str, base_dir: Option<&str>) -> (r:
        Option<LogPlace>)
        ensures
            match r {
                Some(p) => logging.file.enable && (p.dir@, p.path@) == logging.place(
                    component@,
                    match base_dir {
                        Some(b) => Some(b@),
                        None => None,
                    },
                ),
                None => !logging.file.enable,
            },
    {
        if !logging.file.enable {
            return None;
        }
        let dir = resolve_log_dir(logging.file.dir.as_str(), base_dir);
        let u = to_upper(component);
        let path = if same_text(u.as_str(), "WATCHER") {
            joined_path(dir.as_str(), logging.file.watcher_log.as_str())
        } else {
            joined_path(dir.as_str(), logging.file.bridge_log.as_str())
        };
        Some(LogPlace { dir, path })
    }

    /// A logger for the component, with the log file that was opened for it, if any. Without
    /// settings it logs from `Info` on, to no file.
    pub fn new(config: Option<&Config>, component: &str, opened: Option<FileSink>) -> (r: Logger)
        ensures
            r.component@ == component_name(component@),
            match config {
                None => {
                    &&& r.level == LogLevel::Info
                    &&& r.format@ == "[{timestamp}] [{component}] [{level}] {message}"@
                    &&& r.timestamp_enable
                    &&& r.timestamp_format@ == "%Y-%m-%d %H:%M:%S"@
                    &&& r.file_sink is None
                },
                Some(c) => {
                    &&& r.level == LogLevel::named(c.logging.level@)
                    &&& r.format@ == c.logging.format@
                    &&& r.timestamp_enable == c.logging.timestamp.enable
                    &&& r.timestamp_format@ == c.logging.timestamp.format@
                    &&& r.file_sink == if c.logging.file.enable {
                        opened
                    } else {
                        None
                    }
                },
            },
    {
        let name = if component.is_empty() {
            "BRIDGE".to_owned()
        } else {
            component.to_owned()
        };
        match config {
            None => Logger {
                level: LogLevel::Info,
                component: name,
                format: "[{timestamp}] [{component}] [{level}] {message}".to_owned(),
                timestamp_enable: true,
                timestamp_format: "%Y-%m-%d %H:%M:%S".to_owned(),
                file_sink: None,
            },
            Some(c) => Logger {
                level: LogLevel::from_str(c.logging.level.as_str()),
                component: name,
                format: c.logging.format.clone(),
                timestamp_enable: c.logging.timestamp.enable,
                timestamp_format: c.logging.timestamp.format.clone(),
                file_sink: if c.logging.file.enable {
                    opened
                } else {
                    None
                },
            },
        }
    }

    /// The logger lets lines of the level through.
    pub open spec fn lets_through(self, level: LogLevel) -> bool {
        level.weight() >= self.level.weight()
    }

    /// The line for a message, with the time `timestamp`.
    pub open spec fn line(self, level: LogLevel, message: Seq<char>, timestamp: Seq<char>) -> Seq<
        char,
    > {
        render_from(
            self.format@,
            0,
            LineParts {
                timestamp: if self.timestamp_enable {
                    Some(timestamp)
                } else {
                    None
                },
                component: self.component@,
                level: level.name(),
                message,
            },
        )
    }

    /// Whether lines of the level are let through.
    pub fn enabled(&self, level: LogLevel) -> (r: bool)
        ensures
            r == self.lets_through(level),
    {
        level.rank() >= self.level.rank()
    }

    /// The line to write for a message, if the logger lets its level through.
    pub fn log(&self, level: LogLevel, message: &str, timestamp: &str) -> (r: Option<String>)
        requires
            is_ascii_chars(self.format@),
        ensures
            match r {
                Some(s) => self.lets_through(level) && s@ == self.line(level, message@, timestamp@),
                None => !self.lets_through(level),
            },
    {
        if !self.enabled(level) {
            return None;
        }
        Some(self.render(level, message, timestamp))
    }

    /// The line to write for a message of the level `Debug`.
    pub fn debug(&self, message: &str, timestamp: &str) -> (r: Option<String>)
        requires
            is_ascii_chars(self.format@),
        ensures
            match r {
                Some(s) => self.lets_through(LogLevel::Debug) && s@ == self.line(
                    LogLevel::Debug,
                    message@,
                    timestamp@,
                ),
                None => !self.lets_through(LogLevel::Debug),
            },
    {
        self.log(LogLevel::Debug, message, timestamp)
    }

    /// The line to write for a message of the level `Info`.
    pub fn info(&self, message: &str, timestamp: &str) -> (r: Option<String>)
        requires
            is_ascii_chars(self.format@),
        ensures
            match r {
                Some(s) => self.lets_through(LogLevel::Info) && s@ == self.line(
                    LogLevel::Info,
                    message@,
                    timestamp@,
                ),
                None => !self.lets_through(LogLevel::Info),
            },
    {
        self.log(LogLevel::Info, message, timestamp)
    }

    /// The line to write for a message of the level `Okay`.
    pub fn ok(&self, message: &str, timestamp: &str) -> (r: Option<String>)
        requires
            is_ascii_chars(self.format@),
        ensures
            match r {
                Some(s) => self.lets_through(LogLevel::Okay) && s@ == self.line(
                    LogLevel::Okay,
                    message@,
                    timestamp@,
                ),
                None => !self.lets_through(LogLevel::Okay),
            },
    {
        self.log(LogLevel::Okay, message, timestamp)
    }

    /// The line to write for a message of the level `Warning`.
    pub fn warning(&self, message: &str, timestamp: &str) -> (r: Option<String>)
        requires
            is_ascii_chars(self.format@),
        ensures
            match r {
                Some(s) => self.lets_through(LogLevel::Warning) && s@ == self.line(
                    LogLevel::Warning,
                    message@,
                    timestamp@,
                ),
                None => !self.lets_through(LogLevel::Warning),
            },
    {
        self.log(LogLevel::Warning, message, timestamp)
    }

    /// The line to write for a message of the level `Error`.
    pub fn error(&self, message: &str, timestamp: &str) -> (r: Option<String>)
        requires
            is_ascii_chars(self.format@),
        ensures
            match r {
                Some(s) => self.lets_through(LogLevel::Error) && s@ == self.line(
                    LogLevel::Error,
                    message@,
                    timestamp@,
                ),
                None => !self.lets_through(LogLevel::Error),
            },
    {
        self.log(LogLevel::Error, message, timestamp)
    }

    /// The line to write for a message of the level `Critical`.
    pub fn critical(&self, message: &str, timestamp: &str) -> (r: Option<String>)
        requires
            is_ascii_chars(self.format@),
        ensures
            match r {
                Some(s) => self.lets_through(LogLevel::Critical) && s@ == self.line(
                    LogLevel::Critical,
                    message@,
                    timestamp@,
                ),
                None => !self.lets_through(LogLevel::Critical),
            },
    {
        self.log(LogLevel::Critical, message, timestamp)
    }

    /// The line for a message.
    pub fn render(&self, level: LogLevel, message: &str, timestamp: &str) -> (r: String)
        requires
            is_ascii_chars(self.format@),
        ensures
            r@ == self.line(level, message@, timestamp@),
    {
        let v = to_chars(self.format.as_str());
        let n: usize = v.len();
        let bracketed = to_chars("[{timestamp}]");
        let time = to_chars("{timestamp}");
        let component = to_chars("{component}");
        let name = to_chars("{level}");
        let text = to_chars("{message}");
        proof {
            reveal_strlit("[{timestamp}]");
            reveal_strlit("{timestamp}");
            reveal_strlit("{component}");
            reveal_strlit("{level}");
            reveal_strlit("{message}");
        }
        let ghost p = LineParts {
            timestamp: if self.timestamp_enable {
                Some(timestamp@)
            } else {
                None
            },
            component: self.component@,
            level: level.name(),
            message: message@,
        };
        let mut out = String::new();
        let mut i: usize = 0;
        assert(out@ + render_from(v@, 0, p) =~= render_from(v@, 0, p));
        while i < n
            invariant
                n == v@.len(),
                v@ == self.format@,
                bracketed@ == "[{timestamp}]"@,
                time@ == "{timestamp}"@,
                component@ == "{component}"@,
                name@ == "{level}"@,
                text@ == "{message}"@,
                bracketed@.len() == 13,
                time@.len() == 11,
                component@.len() == 11,
                name@.len() == 7,
                text@.len() == 9,
                p.timestamp == if self.timestamp_enable {
                    Some(timestamp@)
                } else {
                    None
                },
                p.component == self.component@,
                p.level == level.name(),
                p.message == message@,
                i <= n,
                out@ + render_from(v@, i as int, p) == render_from(v@, 0, p),
            decreases n - i,
        {
            let ghost before = out@;
            let ghost rest = render_from(v@, i as int, p);
            if !self.timestamp_enable && match_at(&v, &bracketed, i) {
                i = i + 13;
                if i < n && v[i] == ' ' {
                    i = i + 1;
                }
            } else if match_at(&v, &time, i) {
                if self.timestamp_enable {
                    out.append(timestamp);
                }
                i = i + 11;
            } else if match_at(&v, &component, i) {
                out.append(self.component.as_str());
                i = i + 11;
            } else if match_at(&v, &name, i) {
                out.append(level.as_str());
                i = i + 7;
            } else if match_at(&v, &text, i) {
                out.append(message);
                i = i + 9;
            } else {
                out.push(v[i]);
                i = i + 1;
            }
            assert(out@ + render_from(v@, i as int, p) =~= before + rest);
        }
        assert(out@ =~= out@ + Seq::<char>::empty());
        out
    }
}

} // verus!
