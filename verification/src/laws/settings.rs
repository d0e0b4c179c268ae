//! What holds of settings, command lines, commands and logs.
use crate::action_runner::{command_of, dispatch_of, DispatchView};
use crate::bridge::{args_of, base_dir, bridge_named, ArgsView};
use crate::config_manager::{env_bars, eq_gains, ActionEntry, Config, LoggingConfig};
use crate::device_identifier::DeviceType;
use crate::error::McubError;
use crate::laws::text::law_extensions;
use crate::logger::{
    backup_path, component_name, log_dir, render_from, rotation_moves, without_updirs, FileSink,
    LineParts, LogLevel, Logger,
};
use crate::paths::join_path;
use crate::pieces::{occurs_at, starts_with};
use crate::text::{dec, law_dec_round_trip, parse_nat, upper, views};
use vstd::prelude::*;
use vstd::string::*;

verus! {

// ---------------------------------------------------------------------------
// Default values
// ---------------------------------------------------------------------------

/// Settings that are left out have their default values.
pub proof fn law_defaults(c: Config)
    requires
        c.is_default(),
    ensures
        c.logging.level@ == "INFO"@,
        c.logging.format@ == "[{timestamp}] [{component}] [{level}] {message}"@,
        c.logging.timestamp.enable && c.logging.timestamp.format@ == "%Y-%m-%d %H:%M:%S"@,
        c.logging.file.enable && c.logging.file.dir@ == "../logs"@,
        c.logging.file.bridge_log@ == "bridge.log"@ && c.logging.file.watcher_log@ == "watcher.log"@,
        c.logging.file.max_size == 1024 * 1024 && c.logging.file.backup_count == 5,
        c.watcher.device_check_interval == 5,
        c.bridge.device@ == "/dev/ttyACM1"@,
        c.bridge.connection.baudrate == 115_200 && c.bridge.connection.timeout_ns == 100_000_000,
        c.bridge.connection.reconnect_delay_ns == 100_000_000,
        c.bridge.connection.max_reconnect_attempts == 10,
        c.cava.framerate == 60,
        c.cava.input.method@ == "alsa"@ && c.cava.input.source@ == "hw:Loopback,1,0"@,
        c.cava.input.channels@ == "stereo"@,
        c.cava.output.method@ == "raw"@ && c.cava.output.raw_target@ == "/dev/stdout"@,
        c.cava.defaults.data_format@ == "json"@ && c.cava.defaults.spectrum_bars == 16,
        c.cava.defaults.ascii_range == 8 && c.cava.defaults.autosens == 1,
        c.cava.defaults.sensitivity == 100,
        c.cava.smoothing.noise_reduction == 0 && c.cava.smoothing.monstercat == 0
            && c.cava.smoothing.waves == 0,
        forall|i: int| 0 <= i < 8 ==> (#[trigger] c.cava.eq@[i])@ == "1.0"@,
        c.mpd.host@ == "localhost"@ && c.mpd.port == 6600,
        c.mpd.update_interval_ns == 1_000_000_000,
        c.mpd.reconnect.delay_ns == 5_000_000_000 && c.mpd.reconnect.max_attempts == 30,
        c.sysinfo.update_interval_ns == 2_000_000_000,
        c.performance.serial_poll_ms == 5 && c.performance.max_queue_size == 60,
        c.priority_levels.critical < c.priority_levels.high,
        c.priority_levels.critical == -1 && c.priority_levels.high == 0,
        c.priority_levels.normal == 1 && c.priority_levels.low == 2,
        c.actions@.len() == 0,
{
    assert forall|i: int| 0 <= i < 8 implies (#[trigger] c.cava.eq@[i])@ == "1.0"@ by {
        assert(views(c.cava.eq@)[i] == c.cava.eq@[i]@);
    }
}

/// The settings file lies below the base directory, or below the current one.
pub proof fn law_settings_path(base: Seq<char>)
    ensures
        Config::path_from(Some(base)) == join_path(base, "shared/settings.json"@),
        Config::path_from(None) == "shared/settings.json"@,
{
}

// ---------------------------------------------------------------------------
// The equaliser
// ---------------------------------------------------------------------------

proof fn lemma_eight_gains(table: Seq<(Seq<char>, Seq<char>)>)
    ensures
        eq_gains(table).len() == 8,
    decreases table.len(),
{
    if table.len() > 0 {
        lemma_eight_gains(table.drop_last());
    }
}

/// One more entry sets the gain of the band that its key names, from 1 to 8, and no other; a key that
/// names no band sets nothing. Without entries every gain is 1.0.
pub proof fn law_equaliser(
    table: Seq<(Seq<char>, Seq<char>)>,
    key: Seq<char>,
    value: Seq<char>,
    band: int,
)
    requires
        1 <= band <= 8,
    ensures
        ({
            let before = eq_gains(table);
            let after = eq_gains(table.push((key, value)));
            &&& before.len() == 8 && after.len() == 8
            &&& parse_nat(key) == Some(band as nat) ==> after[band - 1] == value
            &&& parse_nat(key) != Some(band as nat) ==> after[band - 1] == before[band - 1]
            &&& eq_gains(Seq::empty())[band - 1] == "1.0"@
        }),
{
    lemma_eight_gains(table);
    let all = table.push((key, value));
    assert(all.drop_last() =~= table);
    lemma_eight_gains(all);
}

/// The number of bars is read from the environment exactly if it is a number of 32 bits.
pub proof fn law_bars_in_the_environment(n: u32, s: Seq<char>)
    ensures
        env_bars(None) is None,
        env_bars(Some(dec(n as nat))) == Some(n as nat),
        env_bars(Some(s)) matches Some(k) ==> parse_nat(s) == Some(k) && k <= u32::MAX,
        parse_nat(s) is None ==> env_bars(Some(s)) is None,
{
    law_dec_round_trip(n as int);
    crate::text::law_dec_value(n as nat);
    assert(crate::text::is_digit(dec(n as nat)[0]));
}

// ---------------------------------------------------------------------------
// The command line of the bridge
// ---------------------------------------------------------------------------

proof fn lemma_kind_words()
    ensures
        "mpd"@.len() == 3,
        "cava"@.len() == 4,
        "hybrid"@.len() == 6,
        "sysinfo"@.len() == 7,
        "--version"@.len() == 9,
        "-v"@.len() == 2,
{
    reveal_strlit("mpd");
    reveal_strlit("cava");
    reveal_strlit("hybrid");
    reveal_strlit("sysinfo");
    reveal_strlit("--version");
    reveal_strlit("-v");
}

/// A kind of bridge has one name, and no other text names one.
pub proof fn law_kinds(s: Seq<char>)
    ensures
        bridge_named(s) == Some(DeviceType::Mpd) <==> s == "mpd"@,
        bridge_named(s) == Some(DeviceType::Cava) <==> s == "cava"@,
        bridge_named(s) == Some(DeviceType::Hybrid) <==> s == "hybrid"@,
        bridge_named(s) == Some(DeviceType::Sysinfo) <==> s == "sysinfo"@,
{
    lemma_kind_words();
}

/// The bridge is run by its kind, alone or behind a device; the version is told exactly if the first
/// word asks for it; anything else is answered with how the program is used.
pub proof fn law_bridge_words(kind: DeviceType, device: Seq<char>, rest: Seq<Seq<char>>)
    ensures
        args_of(Seq::empty()) == ArgsView::Usage,
        args_of(seq![kind.text()] + rest) == (ArgsView::Run { bridge: kind, device: None }),
        args_of(seq!["--version"@] + rest) == ArgsView::Version,
        args_of(seq!["-v"@] + rest) == ArgsView::Version,
        bridge_named(device) is None && device != "--version"@ && device != "-v"@ ==> {
            &&& args_of(seq![device, kind.text()] + rest) == (ArgsView::Run {
                bridge: kind,
                device: Some(device),
            })
            &&& args_of(seq![device]) == ArgsView::Usage
            &&& rest.len() > 0 && bridge_named(rest[0]) is None ==> args_of(seq![device] + rest)
                == ArgsView::Usage
        },
{
    lemma_kind_words();
    assert((seq![kind.text()] + rest)[0] == kind.text());
    assert((seq!["--version"@] + rest)[0] == "--version"@);
    assert((seq!["-v"@] + rest)[0] == "-v"@);
    assert((seq![device, kind.text()] + rest)[0] == device);
    assert((seq![device, kind.text()] + rest)[1] == kind.text());
    assert((seq![device] + rest)[0] == device);
    if rest.len() > 0 {
        assert((seq![device] + rest)[1] == rest[0]);
    }
}

/// The base directory is what the environment says, unless it says nothing; then it is the one above
/// that of the program.
pub proof fn law_base_dir(env: Seq<char>, parent: Option<Seq<char>>, dir: Seq<char>)
    ensures
        env.len() > 0 ==> base_dir(Some(env), parent) == env,
        env.len() == 0 ==> base_dir(Some(env), parent) == base_dir(None, parent),
        base_dir(None, Some(dir)) == join_path(dir, ".."@),
        base_dir(None, None) == ".."@,
{
}

// ---------------------------------------------------------------------------
// Commands
// ---------------------------------------------------------------------------

/// The command of a name is that of the entry that was given last for it; an entry changes nothing for
/// other names.
pub proof fn law_last_entry_counts(actions: Seq<ActionEntry>, e: ActionEntry, other: Seq<char>)
    ensures
        command_of(Seq::empty(), other) is None,
        command_of(actions.push(e), e.name@) == Some(e.command@),
        other != e.name@ ==> command_of(actions.push(e), other) == command_of(actions, other),
{
    assert(actions.push(e).drop_last() =~= actions);
}

/// A name leads to nothing if it is empty or no commands were given, is unknown exactly if none has it,
/// and otherwise has its command run by the shell, which finds the name in its environment.
pub proof fn law_dispatch(list: Vec<ActionEntry>, name: Seq<char>)
    ensures
        dispatch_of(None, name) is Ignore,
        dispatch_of(Some(list), name) is Ignore <==> name.len() == 0,
        name.len() > 0 ==> (dispatch_of(Some(list), name) is Unknown <==> command_of(list@, name)
            is None),
        dispatch_of(Some(list), name) matches DispatchView::Run(p) ==> {
            &&& command_of(list@, name) matches Some(c)
            &&& p.program == "/bin/sh"@
            &&& p.args == seq!["/bin/sh"@, "-c"@, c]
            &&& p.env == seq![("MCUB_ACTION_NAME"@, name)]
        },
        command_of(list@, name) is Some ==> exists|i: int|
            0 <= i < list@.len() && (#[trigger] list@[i]).name@ == name,
{
    if command_of(list@, name) is Some {
        crate::action_runner::law_only_listed_commands_run(list@, name);
    }
}

// ---------------------------------------------------------------------------
// Logs
// ---------------------------------------------------------------------------

/// A logger lets a line through exactly if its level is at least as important as that of the logger:
/// debug, info, okay, warning, error and critical, in this order.
pub proof fn law_levels(logger: Logger, a: LogLevel, b: LogLevel)
    ensures
        LogLevel::Debug.weight() < LogLevel::Info.weight() < LogLevel::Okay.weight()
            < LogLevel::Warning.weight() < LogLevel::Error.weight() < LogLevel::Critical.weight(),
        LogLevel::Debug.weight() == 10,
        LogLevel::Info.weight() - LogLevel::Debug.weight() == 10,
        LogLevel::Warning.weight() - LogLevel::Info.weight() == 10,
        LogLevel::Error.weight() - LogLevel::Warning.weight() == 10,
        LogLevel::Critical.weight() - LogLevel::Error.weight() == 10,
        LogLevel::Okay.weight() - LogLevel::Info.weight() == LogLevel::Warning.weight()
            - LogLevel::Okay.weight(),
        logger.lets_through(logger.level),
        logger.lets_through(LogLevel::Critical),
        logger.lets_through(LogLevel::Debug) <==> logger.level == LogLevel::Debug,
        logger.lets_through(a) && b.weight() >= a.weight() ==> logger.lets_through(b),
        logger.lets_through(a) <==> a.weight() >= logger.level.weight(),
{
}

proof fn lemma_level_words()
    ensures
        "DEBUG"@.len() == 5 && "DEBUG"@[0] == 'D',
        "INFO"@.len() == 4,
        "OK"@.len() == 2,
        "WARNING"@.len() == 7,
        "ERROR"@.len() == 5 && "ERROR"@[0] == 'E',
        "CRITICAL"@.len() == 8,
{
    reveal_strlit("DEBUG");
    reveal_strlit("INFO");
    reveal_strlit("OK");
    reveal_strlit("WARNING");
    reveal_strlit("ERROR");
    reveal_strlit("CRITICAL");
}

/// A level is named by its word, in capitals or not; what is none of the words means info.
pub proof fn law_level_words(s: Seq<char>)
    ensures
        LogLevel::named(s) == LogLevel::Debug <==> upper(s) == "DEBUG"@,
        LogLevel::named(s) == LogLevel::Okay <==> upper(s) == "OK"@,
        LogLevel::named(s) == LogLevel::Warning <==> upper(s) == "WARNING"@,
        LogLevel::named(s) == LogLevel::Error <==> upper(s) == "ERROR"@,
        LogLevel::named(s) == LogLevel::Critical <==> upper(s) == "CRITICAL"@,
        upper(s) == "INFO"@ ==> LogLevel::named(s) == LogLevel::Info,
{
    lemma_level_words();
}

/// The name of a level is its word.
pub proof fn law_level_names(level: LogLevel)
    ensures
        level.name() == "DEBUG"@ <==> level == LogLevel::Debug,
        level.name() == "INFO"@ <==> level == LogLevel::Info,
        level.name() == "OK"@ <==> level == LogLevel::Okay,
        level.name() == "WARNING"@ <==> level == LogLevel::Warning,
        level.name() == "ERROR"@ <==> level == LogLevel::Error,
        level.name() == "CRITICAL"@ <==> level == LogLevel::Critical,
{
    lemma_level_words();
}

/// In a line, a name in braces stands for what it names, and any other character for itself. Where
/// times are not shown, the time goes, with the brackets round it and one blank behind them.
pub proof fn law_line_parts(format: Seq<char>, i: int, p: LineParts)
    requires
        0 <= i < format.len(),
    ensures
        format[i] != '{' && format[i] != '[' ==> render_from(format, i, p) == seq![format[i]]
            + render_from(format, i + 1, p),
        occurs_at(format, "{message}"@, i) ==> render_from(format, i, p) == p.message + render_from(
            format,
            i + 9,
            p,
        ),
        occurs_at(format, "{level}"@, i) ==> render_from(format, i, p) == p.level + render_from(
            format,
            i + 7,
            p,
        ),
        occurs_at(format, "{component}"@, i) ==> render_from(format, i, p) == p.component
            + render_from(format, i + 11, p),
        occurs_at(format, "{timestamp}"@, i) ==> (p.timestamp matches Some(t) ==> render_from(
            format,
            i,
            p,
        ) == t + render_from(format, i + 11, p)),
        occurs_at(format, "{timestamp}"@, i) && p.timestamp is None ==> render_from(format, i, p)
            == render_from(format, i + 11, p),
        format[i] == '[' && p.timestamp is Some ==> render_from(format, i, p) == seq!['[']
            + render_from(format, i + 1, p),
        occurs_at(format, "[{timestamp}] "@, i) && p.timestamp is None ==> render_from(format, i, p)
            == render_from(format, i + 14, p),
{
    reveal_strlit("[{timestamp}]");
    reveal_strlit("[{timestamp}] ");
    reveal_strlit("{timestamp}");
    reveal_strlit("{component}");
    reveal_strlit("{level}");
    reveal_strlit("{message}");
    lemma_occurs_chars(format, "[{timestamp}]"@, i);
    lemma_occurs_chars(format, "[{timestamp}] "@, i);
    lemma_occurs_chars(format, "{timestamp}"@, i);
    lemma_occurs_chars(format, "{component}"@, i);
    lemma_occurs_chars(format, "{level}"@, i);
    lemma_occurs_chars(format, "{message}"@, i);
    assert("{timestamp}"@[1] == 't' && "{component}"@[1] == 'c' && "{level}"@[1] == 'l'
        && "{message}"@[1] == 'm');
    assert("[{timestamp}]"@[0] == '[' && "{timestamp}"@[0] == '{' && "{component}"@[0] == '{'
        && "{level}"@[0] == '{' && "{message}"@[0] == '{');
    if occurs_at(format, "[{timestamp}] "@, i) {
        assert(format.subrange(i, i + 13) =~= "[{timestamp}]"@) by {
            assert(format.subrange(i, i + 14) == "[{timestamp}] "@);
            assert forall|k: int| 0 <= k < 13 implies format.subrange(i, i + 13)[k]
                == "[{timestamp}]"@[k] by {
                assert(format.subrange(i, i + 13)[k] == format.subrange(i, i + 14)[k]);
                assert("[{timestamp}] "@[k] == "[{timestamp}]"@[k]);
            }
        }
        assert("[{timestamp}] "@[13] == ' ');
        assert(format[i + 13] == ' ');
    }
}

proof fn lemma_occurs_chars(s: Seq<char>, pat: Seq<char>, i: int)
    ensures
        occurs_at(s, pat, i) ==> 0 <= i && i + pat.len() <= s.len() && forall|k: int|
            0 <= k < pat.len() ==> s[i + k] == #[trigger] pat[k],
{
    if occurs_at(s, pat, i) {
        assert forall|k: int| 0 <= k < pat.len() implies s[i + k] == #[trigger] pat[k] by {
            assert(s.subrange(i, i + pat.len())[k] == s[i + k]);
        }
    }
}

/// A line holds the message and the name of its level, and the time exactly if times are shown.
pub proof fn law_line(logger: Logger, level: LogLevel, message: Seq<char>, timestamp: Seq<char>)
    ensures
        logger.format@ == "{message}"@ ==> logger.line(level, message, timestamp) == message,
        logger.format@ == "{level}"@ ==> logger.line(level, message, timestamp) == level.name(),
        logger.format@ == "{component}"@ ==> logger.line(level, message, timestamp)
            == logger.component@,
        logger.format@ == "{timestamp}"@ && logger.timestamp_enable ==> logger.line(
            level,
            message,
            timestamp,
        ) == timestamp,
        logger.format@ == "{timestamp}"@ && !logger.timestamp_enable ==> logger.line(
            level,
            message,
            timestamp,
        ) == Seq::<char>::empty(),
{
    reveal_strlit("{timestamp}");
    reveal_strlit("{component}");
    reveal_strlit("{level}");
    reveal_strlit("{message}");
    let f = logger.format@;
    let p = LineParts {
        timestamp: if logger.timestamp_enable {
            Some(timestamp)
        } else {
            None
        },
        component: logger.component@,
        level: level.name(),
        message,
    };
    if f == "{message}"@ || f == "{level}"@ || f == "{component}"@ || f == "{timestamp}"@ {
        assert(f.subrange(0, f.len() as int) =~= f);
        law_line_parts(f, 0, p);
        assert(render_from(f, f.len() as int, p) =~= Seq::<char>::empty());
        assert(message + Seq::<char>::empty() =~= message);
        assert(level.name() + Seq::<char>::empty() =~= level.name());
        assert(logger.component@ + Seq::<char>::empty() =~= logger.component@);
        assert(timestamp + Seq::<char>::empty() =~= timestamp);
    }
}

/// A component without a name is a bridge; the log file is that of the watcher exactly if the component
/// is the watcher, in capitals or not.
pub proof fn law_components(
    logging: LoggingConfig,
    component: Seq<char>,
    base_dir: Option<Seq<char>>,
)
    ensures
        component.len() > 0 ==> component_name(component) == component,
        component_name(Seq::empty()) == "BRIDGE"@,
        ({
            let dir = log_dir(logging.file.dir@, base_dir);
            let place = logging.place(component, base_dir);
            &&& place.0 == dir
            &&& upper(component) == "WATCHER"@ ==> place.1 == join_path(dir, logging.file.watcher_log@)
            &&& upper(component) != "WATCHER"@ ==> place.1 == join_path(dir, logging.file.bridge_log@)
        }),
{
}

/// A file is backed up beside itself: behind its own name stands the number of the backup.
pub proof fn law_backups(dir: Seq<char>, stem: Seq<char>, ext: Seq<char>, number: nat)
    requires
        dir.len() == 0 || dir.last() == '/',
        stem.len() > 0,
        forall|i: int| 0 <= i < stem.len() ==> stem[i] != '/',
        forall|i: int| 0 <= i < ext.len() ==> ext[i] != '/' && ext[i] != '.',
    ensures
        ({
            let path = dir + stem + seq!['.'] + ext;
            backup_path(path, number) == path + seq!['.'] + dec(number)
        }),
{
    let path = dir + stem + seq!['.'] + ext;
    let other = ext.push('.') + dec(number);
    law_extensions(dir, stem, ext, other);
    assert(dir + stem + seq!['.'] + other =~= path + seq!['.'] + dec(number));
}

/// A log file is rotated exactly if it has a limit and has reached it.
pub proof fn law_full(sink: FileSink)
    ensures
        sink.max_size == 0 ==> !sink.is_full(),
        sink.max_size > 0 ==> (sink.is_full() <==> sink.current_size >= sink.max_size),
{
}

/// A rotation makes as many moves as there are backups: the last backup is overwritten first, each
/// moves up by one, and the file itself becomes the first.
pub proof fn law_rotation(path: Seq<char>, backups: nat, i: int)
    requires
        0 <= i < backups,
    ensures
        rotation_moves(path, backups).len() == backups,
        rotation_moves(path, backups)[i].1 == backup_path(path, (backups - i) as nat),
        i < backups - 1 ==> rotation_moves(path, backups)[i].0 == backup_path(
            path,
            (backups - i - 1) as nat,
        ),
        rotation_moves(path, backups)[backups - 1] == (path, backup_path(path, 1)),
        rotation_moves(path, 0).len() == 0,
{
}

/// A directory of logs that begins at the root stands for itself; any other is seen from the base
/// directory, however many steps upwards it begins with.
pub proof fn law_log_dir(dir: Seq<char>, base: Seq<char>, name: Seq<char>)
    requires
        name.len() > 0,
        name[0] != '/' && name[0] != '.',
    ensures
        dir.len() > 0 && dir[0] == '/' ==> log_dir(dir, Some(base)) == dir,
        log_dir(dir, None) == dir,
        log_dir(name, Some(base)) == join_path(base, name),
        log_dir("../"@ + name, Some(base)) == join_path(base, name),
        log_dir("./"@ + name, Some(base)) == join_path(base, name),
        log_dir("../"@ + dir, Some(base)) == (if without_updirs(dir).len() >= 2 && starts_with(
            without_updirs(dir),
            "./"@,
        ) {
            join_path(base, without_updirs(dir).skip(2))
        } else {
            join_path(base, without_updirs(dir))
        }),
{
    reveal_strlit("../");
    reveal_strlit("./");
    assert("../"@[0] == '.' && "../"@[1] == '.' && "./"@[0] == '.' && "./"@[1] == '/');
    lemma_not_at_front(name, "../"@);
    lemma_not_at_front(name, "./"@);
    let a = "../"@ + name;
    assert(a.subrange(0, 3) =~= "../"@);
    assert(a.skip(3) =~= name);
    assert(a[0] == '.');
    let b = "./"@ + name;
    assert(b.subrange(0, 2) =~= "./"@);
    assert(b.skip(2) =~= name);
    assert(b[0] == '.' && b[1] == '/');
    if b.len() >= 3 && starts_with(b, "../"@) {
        assert(b.subrange(0, 3)[1] == b[1]);
    }
    let c = "../"@ + dir;
    assert(c.subrange(0, 3) =~= "../"@);
    assert(c.skip(3) =~= dir);
    assert(c[0] == '.');
    assert(without_updirs(a) == without_updirs(name));
    assert(without_updirs(c) == without_updirs(dir));
}

proof fn lemma_not_at_front(s: Seq<char>, pat: Seq<char>)
    requires
        s.len() > 0,
        pat.len() > 0,
        s[0] != pat[0],
    ensures
        !starts_with(s, pat),
{
    if starts_with(s, pat) {
        assert(s.subrange(0, pat.len() as int)[0] == s[0]);
    }
}

/// The message of an error says what kind it is, and then what went wrong.
pub proof fn law_error_messages(e: McubError)
    ensures
        e matches McubError::Io(m) ==> e.text() == "io: "@ + m@,
        e matches McubError::Nix(m) ==> e.text() == "nix: "@ + m@,
        e matches McubError::Json(m) ==> e.text() == "json: "@ + m@,
        e matches McubError::Config(m) ==> e.text() == "config: "@ + m@,
        e matches McubError::Serial(m) ==> e.text() == "serial: "@ + m@,
        e matches McubError::Mpd(m) ==> e.text() == "mpd: "@ + m@,
        e is DeviceNotFound ==> e.text() == "device not found"@,
        e is Timeout ==> e.text() == "timeout"@,
        e is Disconnected ==> e.text() == "disconnected"@,
{
}

} // verus!
