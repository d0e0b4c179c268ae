//! The spectrum analyser: its settings, its start, and the frames that it writes.
use crate::config_manager::{CavaConfig, Config};
use crate::pieces::{contains_text, has_text, lines, pieces, split_lines, split_on, trim, trimmed};
use crate::text::{
    dec, dec_text, int_within, joined, lossy_text, read_i32, same_text, text_from_utf8,
    text_from_utf8_lossy, views,
};
use vstd::prelude::*;
use vstd::string::*;
use vstd::utf8::{decode_utf8, valid_utf8};

verus! {

/// The program of the analyser.
pub const ANALYSER: &'static str = "/usr/bin/cava";

/// The settings file of the analyser.
pub const SETTINGS_FILE: &'static str = "/tmp/cava_config";

/// The time after which a new analyser is looked at, in milliseconds.
pub const PROCESS_SETTLE_MS: u64 = 100;

/// The rest between two looks for the loopback device, in milliseconds.
pub const LOOPBACK_REST_MS: u64 = 1000;

/// The rest after an earlier analyser was told to stop, in milliseconds.
pub const KILL_REST_MS: u64 = 500;

/// The time that the analyser has to end, in milliseconds.
pub const END_WAIT_MS: u64 = 1000;

/// The longest line of numbers that is read whole.
pub const ASCII_LINE_LIMIT: usize = 1023;

/// How the analyser writes its frames.
#[derive(Debug, Clone, Copy, PartialEq, Eq, Structural)]
pub enum CavaFormat {
    Ascii,
    Binary,
}

impl CavaFormat {
    /// The name of the format in the settings of the analyser.
    pub open spec fn text(self) -> Seq<char> {
        match self {
            CavaFormat::Ascii => "ascii"@,
            CavaFormat::Binary => "binary"@,
        }
    }

    /// The format of a name: what is not `binary` is read as text.
    pub open spec fn named(s: Seq<char>) -> CavaFormat {
        if s == "binary"@ {
            CavaFormat::Binary
        } else {
            CavaFormat::Ascii
        }
    }

    pub fn as_str(self) -> (r: &'static str)
        ensures
            r@ == self.text(),
    {
        match self {
            CavaFormat::Ascii => "ascii",
            CavaFormat::Binary => "binary",
        }
    }

    pub fn from_str(s: &str) -> (r: CavaFormat)
        ensures
            r == CavaFormat::named(s@),
    {
        if same_text(s, "binary") {
            CavaFormat::Binary
        } else {
            CavaFormat::Ascii
        }
    }
}

/// A format is found again by its name.
pub proof fn law_format_name(f: CavaFormat)
    ensures
        CavaFormat::named(f.text()) == f,
{
    reveal_strlit("ascii");
    reveal_strlit("binary");
    assert("ascii"@.len() != "binary"@.len());
}

/// What a read of the analyser gives: nothing, a frame, or the news that it has ended.
#[derive(Debug)]
pub enum ReadResult {
    Nothing,
    Frame(Vec<i32>),
    Exited,
}

/// What a read gives, by its view.
pub enum ReadView {
    Nothing,
    Frame(Seq<i32>),
    Exited,
}

impl View for ReadResult {
    type V = ReadView;

    open spec fn view(&self) -> ReadView {
        match self {
            ReadResult::Nothing => ReadView::Nothing,
            ReadResult::Frame(v) => ReadView::Frame(v@),
            ReadResult::Exited => ReadView::Exited,
        }
    }
}

/// The analyser as the library knows it: its format, its bars, and the bytes of frames that are
/// not complete.
#[derive(Debug)]
pub struct CavaManager {
    pub running: bool,
    pub binary_buffer: Vec<u8>,
    pub spectrum_bars: usize,
    pub frame_size: usize,
    pub read_chunk_size: usize,
    pub cava_format: CavaFormat,
    pub binary_fd_configured: bool,
}

/// The format of the analyser: the one asked for, else the one that suits the data format of the
/// settings.
pub open spec fn format_of(asked: Option<Seq<char>>, data_format: Seq<char>) -> CavaFormat {
    match asked {
        Some(s) if s.len() > 0 => CavaFormat::named(s),
        _ => if data_format == "json"@ {
            CavaFormat::Ascii
        } else {
            CavaFormat::Binary
        },
    }
}

/// The number of bars: the one asked for, unless it is 0, else the one of the settings.
pub open spec fn bars_of(asked: Option<u32>, default: u32) -> u32 {
    match asked {
        Some(n) if n > 0 => n,
        _ => default,
    }
}

// ---------------------------------------------------------------------------
// The settings of the analyser
// ---------------------------------------------------------------------------

/// The lines, each with its line end.
pub open spec fn with_line_ends(lines: Seq<Seq<char>>) -> Seq<char>
    decreases lines.len(),
{
    if lines.len() == 0 {
        Seq::empty()
    } else {
        with_line_ends(lines.drop_last()) + lines.last() + seq!['\n']
    }
}

/// The lines that give the gains of the equaliser, counted from 1.
pub open spec fn eq_lines(eq: Seq<Seq<char>>) -> Seq<Seq<char>> {
    Seq::new(eq.len(), |i: int| dec((i + 1) as nat) + " = "@ + eq[i])
}

/// The lines of the settings of the analyser.
pub open spec fn config_lines(cava: CavaConfig, bars: usize, format: CavaFormat) -> Seq<Seq<char>> {
    seq![
        "[general]"@,
        "framerate = "@ + dec(cava.framerate as nat),
        "bars = "@ + dec(bars as nat),
        "autosens = "@ + dec(cava.defaults.autosens as nat),
        "sensitivity = "@ + dec(cava.defaults.sensitivity as nat),
        ""@,
        "[input]"@,
        "method = "@ + cava.input.method@,
        "source = "@ + cava.input.source@,
        ""@,
        "[output]"@,
        "method = "@ + cava.output.method@,
        "raw_target = "@ + cava.output.raw_target@,
        "channels = "@ + cava.input.channels@,
        "data_format = "@ + format.text(),
        if format == CavaFormat::Binary {
            "bit_format = "@ + "8bit"@
        } else {
            "ascii_max_range = "@ + dec(cava.defaults.ascii_range as nat)
        },
        ""@,
        "[smoothing]"@,
        "noise_reduction = "@ + dec(cava.smoothing.noise_reduction as nat),
        "monstercat = "@ + dec(cava.smoothing.monstercat as nat),
        "waves = "@ + dec(cava.smoothing.waves as nat),
        ""@,
        "[eq]"@,
    ] + eq_lines(views(cava.eq@))
}

/// A text that is written line by line.
struct Lines {
    text: String,
    list: Ghost<Seq<Seq<char>>>,
}

impl Lines {
    spec fn written(self) -> bool {
        self.text@ == with_line_ends(self.list@)
    }

    fn new() -> (r: Lines)
        ensures
            r.written(),
            r.list@ == Seq::<Seq<char>>::empty(),
    {
        Lines { text: String::new(), list: Ghost(Seq::empty()) }
    }

    fn put(self, label: &str, value: &str) -> (r: Lines)
        requires
            self.written(),
        ensures
            r.written(),
            r.list@ == self.list@.push(label@ + value@),
    {
        let mut text = self.text;
        text.append(label);
        text.append(value);
        text.append("\n");
        let ghost list = self.list@.push(label@ + value@);
        proof {
            reveal_strlit("\n");
            assert(list.drop_last() =~= self.list@);
            assert(text@ =~= with_line_ends(list));
        }
        Lines { text, list: Ghost(list) }
    }

    fn head(self, line: &str) -> (r: Lines)
        requires
            self.written(),
        ensures
            r.written(),
            r.list@ == self.list@.push(line@),
    {
        proof {
            reveal_strlit("");
            assert(line@ + ""@ =~= line@);
        }
        self.put(line, "")
    }

    fn number(self, label: &str, n: u64) -> (r: Lines)
        requires
            self.written(),
        ensures
            r.written(),
            r.list@ == self.list@.push(label@ + dec(n as nat)),
    {
        let value = dec_text(n);
        self.put(label, value.as_str())
    }
}

impl CavaManager {
    /// The analyser, not yet started.
    pub fn new(config: &Config, cava_format: Option<&str>, spectrum_bars: Option<u32>) -> (r:
        CavaManager)
        requires
            bars_of(spectrum_bars, config.cava.defaults.spectrum_bars) * 8 <= usize::MAX,
        ensures
            !r.running,
            r.binary_buffer@.len() == 0,
            r.spectrum_bars == bars_of(spectrum_bars, config.cava.defaults.spectrum_bars),
            r.frame_size == r.spectrum_bars,
            r.read_chunk_size == r.spectrum_bars * 8,
            r.cava_format == format_of(
                match cava_format {
                    Some(s) => Some(s@),
                    None => None,
                },
                config.cava.defaults.data_format@,
            ),
            !r.binary_fd_configured,
    {
        let by_settings = if same_text(config.cava.defaults.data_format.as_str(), "json") {
            CavaFormat::Ascii
        } else {
            CavaFormat::Binary
        };
        let format = match cava_format {
            Some(s) => {
                proof {
                    reveal_strlit("");
                    assert(s@.len() == 0 ==> s@ =~= ""@);
                }
                if same_text(s, "") {
                    by_settings
                } else {
                    CavaFormat::from_str(s)
                }
            },
            None => by_settings,
        };
        let bars: u32 = match spectrum_bars {
            Some(n) => if n > 0 {
                n
            } else {
                config.cava.defaults.spectrum_bars
            },
            None => config.cava.defaults.spectrum_bars,
        };
        let bars: usize = bars as usize;
        CavaManager {
            running: false,
            binary_buffer: Vec::new(),
            spectrum_bars: bars,
            frame_size: bars,
            read_chunk_size: bars * 8,
            cava_format: format,
            binary_fd_configured: false,
        }
    }

    /// The text of the settings file of the analyser.
    pub fn write_config(&self, cava: &CavaConfig) -> (r: String)
        ensures
            r@ == with_line_ends(config_lines(*cava, self.spectrum_bars, self.cava_format)),
    {
        let head = Lines::new()
            .head("[general]")
            .number("framerate = ", cava.framerate as u64)
            .number("bars = ", self.spectrum_bars as u64)
            .number("autosens = ", cava.defaults.autosens as u64)
            .number("sensitivity = ", cava.defaults.sensitivity as u64)
            .head("")
            .head("[input]")
            .put("method = ", cava.input.method.as_str())
            .put("source = ", cava.input.source.as_str())
            .head("")
            .head("[output]")
            .put("method = ", cava.output.method.as_str())
            .put("raw_target = ", cava.output.raw_target.as_str())
            .put("channels = ", cava.input.channels.as_str())
            .put("data_format = ", self.cava_format.as_str());
        let head = if self.cava_format == CavaFormat::Binary {
            head.put("bit_format = ", "8bit")
        } else {
            head.number("ascii_max_range = ", cava.defaults.ascii_range as u64)
        };
        let mut out = head
            .head("")
            .head("[smoothing]")
            .number("noise_reduction = ", cava.smoothing.noise_reduction as u64)
            .number("monstercat = ", cava.smoothing.monstercat as u64)
            .number("waves = ", cava.smoothing.waves as u64)
            .head("")
            .head("[eq]");
        let ghost all = config_lines(*cava, self.spectrum_bars, self.cava_format);
        let ghost gains = eq_lines(views(cava.eq@));
        let ghost start = out.list@;
        assert(start + gains =~= all);
        let n: usize = cava.eq.len();
        let mut i: usize = 0;
        assert(out.list@ =~= start + gains.take(0));
        while i < n
            invariant
                n == cava.eq@.len(),
                i <= n,
                gains == eq_lines(views(cava.eq@)),
                out.written(),
                out.list@ == start + gains.take(i as int),
            decreases n - i,
        {
            let number = dec_text((i as u64) + 1);
            let label = joined(number.as_str(), " = ");
            out = out.put(label.as_str(), cava.eq[i].as_str());
            assert(out.list@ =~= start + gains.take(i + 1));
            i = i + 1;
        }
        assert(gains.take(i as int) =~= gains);
        out.text
    }
}

// ---------------------------------------------------------------------------
// Processes
// ---------------------------------------------------------------------------

/// The process numbers that stand in a list, one on a line. Lines that hold no number above 0 do
/// not count.
pub open spec fn pids(list: Seq<Seq<char>>) -> Seq<i32>
    decreases list.len(),
{
    if list.len() == 0 {
        Seq::empty()
    } else {
        let before = pids(list.drop_last());
        match int_within(trim(list.last()), i32::MIN as int, i32::MAX as int) {
            Some(n) if n > 0 => before.push(n as i32),
            _ => before,
        }
    }
}

/// The process numbers that stand in a text, one on a line.
pub fn pids_in(text: &str) -> (r: Vec<i32>)
    ensures
        r@ == pids(lines(text@)),
{
    let list = split_lines(text);
    let mut r: Vec<i32> = Vec::new();
    let n: usize = list.len();
    let mut i: usize = 0;
    assert(views(list@).take(0) =~= Seq::<Seq<char>>::empty());
    while i < n
        invariant
            n == list@.len(),
            i <= n,
            r@ == pids(views(list@).take(i as int)),
        decreases n - i,
    {
        let line = trimmed(list[i].as_str());
        proof {
            let t = views(list@).take(i + 1);
            assert(t.drop_last() =~= views(list@).take(i as int));
            assert(t.last() == list@[i as int]@);
        }
        match read_i32(line.as_str()) {
            Some(pid) => {
                if pid > 0 {
                    r.push(pid);
                }
            },
            None => {},
        }
        i = i + 1;
    }
    assert(views(list@).take(i as int) =~= views(list@));
    r
}

/// The text speaks of the loopback device.
pub open spec fn names_loopback(text: Seq<char>) -> bool {
    contains_text(text, "Loopback"@)
}

/// Whether the list of sound devices, by what its program wrote, holds the loopback device.
pub fn check_loopback(stdout: &[u8], stderr: &[u8]) -> (r: bool)
    ensures
        r == (names_loopback(lossy_text(stdout@)) || names_loopback(lossy_text(stderr@))),
        valid_utf8(stdout@) && names_loopback(decode_utf8(stdout@)) ==> r,
{
    let out = text_from_utf8_lossy(stdout);
    let err = text_from_utf8_lossy(stderr);
    has_text(out.as_str(), "Loopback") || has_text(err.as_str(), "Loopback")
}

/// What to do while the loopback device is awaited.
#[derive(Debug, Clone, Copy, PartialEq, Eq, Structural)]
pub enum LoopbackStep {
    /// It is there, after so many seconds.
    Ready(u32),
    /// Wait for so many milliseconds and look again.
    Wait(u64),
    /// It did not come in time.
    Unavailable,
}

/// What happened during the start of the analyser.
#[derive(Debug, Clone, Copy, PartialEq, Eq, Structural)]
pub enum StartEvent {
    /// The settings file was written, or could not be.
    ConfigWritten(bool),
    /// The loopback device is there, or did not come in time.
    Loopback(bool),
    /// The process was made, or could not be.
    Spawned(bool),
    /// The process still runs a moment later, or does not.
    Settled(bool),
}

/// What to do next to start the analyser.
#[derive(Debug, Clone, Copy, PartialEq, Eq, Structural)]
pub enum StartStep {
    AwaitLoopback,
    /// Make the process.
    Spawn,
    /// Wait for so many milliseconds and see whether the process still runs.
    Settle(u64),
    Started,
    Failed,
}

/// What follows an event during the start.
pub open spec fn start_step(event: StartEvent) -> StartStep {
    match event {
        StartEvent::ConfigWritten(true) => StartStep::AwaitLoopback,
        StartEvent::Loopback(true) => StartStep::Spawn,
        StartEvent::Spawned(true) => StartStep::Settle(PROCESS_SETTLE_MS),
        StartEvent::Settled(true) => StartStep::Started,
        _ => StartStep::Failed,
    }
}

/// The words of the command line of the analyser.
pub open spec fn command_words() -> Seq<Seq<char>> {
    seq![ANALYSER@, "-p"@, SETTINGS_FILE@]
}

/// What happened while the analyser is ended.
#[derive(Debug, Clone, Copy, PartialEq, Eq, Structural)]
pub enum EndEvent {
    /// It is to be ended.
    Begin,
    /// It still runs, or does not.
    Waited(bool),
    /// It has ended.
    Ended,
}

/// What to do next to end the analyser.
#[derive(Debug, Clone, Copy, PartialEq, Eq, Structural)]
pub enum EndStep {
    /// Tell the process to stop, rest for so many milliseconds, and look at it.
    Terminate(u64),
    /// Kill the process, and wait for it.
    Kill,
    /// Wait for the process.
    Reap,
    /// Remove the settings file, if it is there; then all is done.
    RemoveSettings,
}

/// What follows an event while the analyser, which runs or not, is ended.
pub open spec fn end_step(running: bool, event: EndEvent) -> EndStep {
    match event {
        EndEvent::Begin => if running {
            EndStep::Terminate(END_WAIT_MS)
        } else {
            EndStep::RemoveSettings
        },
        EndEvent::Waited(true) => EndStep::Kill,
        EndEvent::Waited(false) => EndStep::Reap,
        EndEvent::Ended => EndStep::RemoveSettings,
    }
}

/// What a read of the analyser needs first.
#[derive(Debug, Clone, Copy, PartialEq, Eq, Structural)]
pub enum ReadStep {
    /// Nothing is to be read.
    Nothing,
    /// The analyser has ended.
    Exited,
    /// Wait for bytes, then read a line.
    ReadAscii,
    /// Read what is there; first wait for bytes, if so marked.
    ReadBinary {
        wait: bool,
    },
}

impl CavaManager {
    /// The words of the command line of the analyser: its program, and its settings file.
    pub fn command_line() -> (r: Vec<String>)
        ensures
            views(r@) == command_words(),
    {
        let mut r: Vec<String> = Vec::new();
        r.push(ANALYSER.to_owned());
        r.push("-p".to_owned());
        r.push(SETTINGS_FILE.to_owned());
        assert(views(r@) =~= command_words());
        r
    }

    /// What the command line of an earlier analyser holds.
    pub fn earlier_pattern() -> (r: String)
        ensures
            r@ == "/usr/bin/cava -p /tmp/cava_config"@,
    {
        "/usr/bin/cava -p /tmp/cava_config".to_owned()
    }

    /// The processes to end before the analyser starts, by what the search for them wrote, and the
    /// rest after they were told to stop, in milliseconds: none, if there are none.
    pub fn kill_existing(&self, found: &[u8]) -> (r: (Vec<i32>, u64))
        ensures
            r.0@ == pids(lines(lossy_text(found@))),
            valid_utf8(found@) ==> r.0@ == pids(lines(decode_utf8(found@))),
            r.1 == if r.0@.len() > 0 {
                KILL_REST_MS
            } else {
                0
            },
    {
        let text = text_from_utf8_lossy(found);
        let list = pids_in(text.as_str());
        let rest: u64 = if list.len() > 0 {
            KILL_REST_MS
        } else {
            0
        };
        (list, rest)
    }

    /// Whether the loopback device, `ready` or not after `waited` seconds, is still awaited.
    pub fn wait_for_loopback(waited: u32, max_wait_secs: u32, ready: bool) -> (r: LoopbackStep)
        ensures
            r == if ready {
                LoopbackStep::Ready(waited)
            } else if waited < max_wait_secs {
                LoopbackStep::Wait(LOOPBACK_REST_MS)
            } else {
                LoopbackStep::Unavailable
            },
    {
        if ready {
            LoopbackStep::Ready(waited)
        } else if waited < max_wait_secs {
            LoopbackStep::Wait(LOOPBACK_REST_MS)
        } else {
            LoopbackStep::Unavailable
        }
    }

    /// Goes on with the start. Once the settings are written, bytes of an earlier run are dropped;
    /// once the process has settled, the analyser runs.
    pub fn start(&mut self, event: StartEvent) -> (r: StartStep)
        ensures
            r == start_step(event),
            final(self).running == (old(self).running || event == StartEvent::Settled(true)),
            final(self).binary_buffer@ == if event == StartEvent::ConfigWritten(true) {
                Seq::empty()
            } else {
                old(self).binary_buffer@
            },
            final(self).binary_fd_configured == (old(self).binary_fd_configured && event
                != StartEvent::ConfigWritten(true)),
            final(self).spectrum_bars == old(self).spectrum_bars,
            final(self).frame_size == old(self).frame_size,
            final(self).read_chunk_size == old(self).read_chunk_size,
            final(self).cava_format == old(self).cava_format,
    {
        match event {
            StartEvent::ConfigWritten(ok) => {
                if ok {
                    self.binary_buffer.clear();
                    self.binary_fd_configured = false;
                    StartStep::AwaitLoopback
                } else {
                    StartStep::Failed
                }
            },
            StartEvent::Loopback(ok) => if ok {
                StartStep::Spawn
            } else {
                StartStep::Failed
            },
            StartEvent::Spawned(ok) => if ok {
                StartStep::Settle(PROCESS_SETTLE_MS)
            } else {
                StartStep::Failed
            },
            StartEvent::Settled(ok) => {
                if ok {
                    self.running = true;
                    StartStep::Started
                } else {
                    StartStep::Failed
                }
            },
        }
    }

    /// The second byte of a binary frame: the number of bars, as far as seven bits hold it.
    pub fn binary_header(&self) -> (r: u8)
        ensures
            r == self.spectrum_bars % 128,
    {
        (self.spectrum_bars % 128) as u8
    }

    /// What a read needs, if the process is `alive` or not.
    pub fn read_data(&self, alive: bool) -> (r: ReadStep)
        ensures
            r == if !self.running {
                ReadStep::Nothing
            } else if !alive {
                ReadStep::Exited
            } else if self.cava_format == CavaFormat::Ascii {
                ReadStep::ReadAscii
            } else {
                ReadStep::ReadBinary { wait: self.binary_buffer@.len() < self.frame_size }
            },
    {
        if !self.running {
            ReadStep::Nothing
        } else if !alive {
            ReadStep::Exited
        } else {
            match self.cava_format {
                CavaFormat::Ascii => ReadStep::ReadAscii,
                CavaFormat::Binary => ReadStep::ReadBinary {
                    wait: self.binary_buffer.len() < self.frame_size,
                },
            }
        }
    }

    /// Whether the pipe has yet to be made non-blocking. It is asked once for each start.
    pub fn configure_fd(&mut self) -> (r: bool)
        ensures
            r == !old(self).binary_fd_configured,
            *final(self) == (CavaManager { binary_fd_configured: true, ..*old(self) }),
    {
        let first = !self.binary_fd_configured;
        self.binary_fd_configured = true;
        first
    }

    /// The frame that stands on a line of numbers.
    pub fn read_ascii(&self, line: Vec<u8>, max_values: usize) -> (r: ReadResult)
        ensures
            r@ == if line@.len() > 0 && valid_utf8(line@) {
                ascii_frame(decode_utf8(line@), max_values as nat, self.spectrum_bars as nat)
            } else {
                ReadView::Nothing
            },
    {
        if line.len() == 0 {
            return ReadResult::Nothing;
        }
        match text_from_utf8(line) {
            Some(s) => {
                let values = numbers_of(s.as_str(), max_values);
                if values.len() != self.spectrum_bars {
                    ReadResult::Nothing
                } else {
                    ReadResult::Frame(values)
                }
            },
            None => ReadResult::Nothing,
        }
    }

    /// Takes the bytes that came. If they complete a frame, the last complete one is given; what
    /// came before it is dropped, and what follows it is kept.
    pub fn read_binary(&mut self, chunk: &[u8], max_values: usize) -> (r: ReadResult)
        requires
            old(self).frame_size > 0,
        ensures
            ({
                let all = old(self).binary_buffer@ + chunk@;
                let size = old(self).frame_size as nat;
                &&& r@ == binary_read(all, size, max_values as nat)
                &&& final(self).binary_buffer@ == left_over(all, size)
            }),
            final(self).running == old(self).running,
            final(self).spectrum_bars == old(self).spectrum_bars,
            final(self).frame_size == old(self).frame_size,
            final(self).read_chunk_size == old(self).read_chunk_size,
            final(self).cava_format == old(self).cava_format,
            final(self).binary_fd_configured == old(self).binary_fd_configured,
    {
        let ghost all = self.binary_buffer@ + chunk@;
        self.binary_buffer.extend_from_slice(chunk);
        assert(self.binary_buffer@ =~= all);
        let len: usize = self.binary_buffer.len();
        let size: usize = self.frame_size;
        if len < size {
            return ReadResult::Nothing;
        }
        let rest: usize = len % size;
        let end: usize = len - rest;
        proof {
            lemma_frames(len as int, size as int);
        }
        let first: usize = end - size;
        let count: usize = if size < max_values {
            size
        } else {
            max_values
        };
        let mut values: Vec<i32> = Vec::new();
        let mut i: usize = 0;
        while i < count
            invariant
                i <= count <= size,
                size == self.frame_size,
                first + size <= len,
                len == self.binary_buffer@.len(),
                self.binary_buffer@ == all,
                values@ =~= widened(all.subrange(first as int, first + i)),
            decreases count - i,
        {
            values.push(self.binary_buffer[first + i] as i32);
            assert(values@ =~= widened(all.subrange(first as int, first + i + 1)));
            i = i + 1;
        }
        let mut kept: Vec<u8> = Vec::new();
        let mut j: usize = end;
        while j < len
            invariant
                end <= j <= len,
                len == self.binary_buffer@.len(),
                self.binary_buffer@ == all,
                kept@ =~= all.subrange(end as int, j as int),
            decreases len - j,
        {
            kept.push(self.binary_buffer[j]);
            j = j + 1;
        }
        self.binary_buffer = kept;
        proof {
            assert(kept@ =~= all.skip(end as int));
            let frame = all.subrange(first as int, end as int);
            assert(frame.take(count as int) =~= all.subrange(first as int, first + count));
        }
        ReadResult::Frame(values)
    }

    /// Goes on after an event while the analyser is ended. The process, if there is one, is told to
    /// stop, and killed if it still runs a moment later. It and the bytes that it wrote are
    /// forgotten.
    pub fn cleanup(&mut self, event: EndEvent) -> (r: EndStep)
        ensures
            r == end_step(old(self).running, event),
            event == EndEvent::Begin ==> !final(self).running && final(self).binary_buffer@.len()
                == 0,
            event != EndEvent::Begin ==> final(self).running == old(self).running
                && final(self).binary_buffer == old(self).binary_buffer,
            final(self).spectrum_bars == old(self).spectrum_bars,
            final(self).frame_size == old(self).frame_size,
            final(self).read_chunk_size == old(self).read_chunk_size,
            final(self).cava_format == old(self).cava_format,
            final(self).binary_fd_configured == old(self).binary_fd_configured,
    {
        match event {
            EndEvent::Begin => {
                let was = self.running;
                self.running = false;
                self.binary_buffer.clear();
                if was {
                    EndStep::Terminate(END_WAIT_MS)
                } else {
                    EndStep::RemoveSettings
                }
            },
            EndEvent::Waited(alive) => if alive {
                EndStep::Kill
            } else {
                EndStep::Reap
            },
            EndEvent::Ended => EndStep::RemoveSettings,
        }
    }
}

// ---------------------------------------------------------------------------
// Frames
// ---------------------------------------------------------------------------

/// The time to wait for bytes, in milliseconds: that of `timeout_ns`, at least 1, as far as sixteen
/// bits hold it.
pub fn read_wait_ms(timeout_ns: u64) -> (r: u16)
    ensures
        r as int == if timeout_ns < 2_000_000 {
            1
        } else {
            (timeout_ns as int / 1_000_000) % 65536
        },
{
    let ms: u64 = timeout_ns / 1_000_000;
    if ms < 1 {
        1
    } else {
        (ms % 65536) as u16
    }
}

/// Takes the next byte of a line, if there is one. Returns whether the line goes on: it ends where
/// no byte comes, at a line feed, or when it has its full length.
pub fn take_byte(line: &mut Vec<u8>, byte: Option<u8>) -> (r: bool)
    requires
        old(line)@.len() < ASCII_LINE_LIMIT,
    ensures
        match byte {
            Some(b) if b != 10 => final(line)@ == old(line)@.push(b) && r == (final(line)@.len()
                < ASCII_LINE_LIMIT),
            _ => final(line)@ == old(line)@ && !r,
        },
{
    match byte {
        Some(b) => {
            if b == 10 {
                false
            } else {
                line.push(b);
                line.len() < ASCII_LINE_LIMIT
            }
        },
        None => false,
    }
}

/// The numbers among the parts of a line; other parts do not count.
pub open spec fn numbers_among(parts: Seq<Seq<char>>) -> Seq<i32>
    decreases parts.len(),
{
    if parts.len() == 0 {
        Seq::empty()
    } else {
        let before = numbers_among(parts.drop_last());
        match int_within(parts.last(), i32::MIN as int, i32::MAX as int) {
            Some(n) => before.push(n as i32),
            None => before,
        }
    }
}

/// At most the first `max` values.
pub open spec fn first_values(v: Seq<i32>, max: nat) -> Seq<i32> {
    if v.len() <= max {
        v
    } else {
        v.take(max as int)
    }
}

/// The frame of a line of numbers between semicolons: the first `max` of them, if that makes one
/// for each bar.
pub open spec fn ascii_frame(line: Seq<char>, max: nat, bars: nat) -> ReadView {
    let values = first_values(numbers_among(pieces(line, ';')), max);
    if values.len() == bars {
        ReadView::Frame(values)
    } else {
        ReadView::Nothing
    }
}

proof fn lemma_numbers_grow(parts: Seq<Seq<char>>, i: int)
    requires
        0 <= i <= parts.len(),
    ensures
        numbers_among(parts.take(i)).len() <= numbers_among(parts).len(),
        numbers_among(parts).take(numbers_among(parts.take(i)).len() as int) == numbers_among(
            parts.take(i),
        ),
    decreases parts.len(),
{
    if i == parts.len() {
        assert(parts.take(i) =~= parts);
        assert(numbers_among(parts).take(numbers_among(parts).len() as int) =~= numbers_among(
            parts,
        ));
    } else {
        lemma_numbers_grow(parts.drop_last(), i);
        assert(parts.drop_last().take(i) =~= parts.take(i));
        let k = numbers_among(parts.take(i)).len() as int;
        assert(numbers_among(parts).take(k) =~= numbers_among(parts.drop_last()).take(k));
    }
}

fn numbers_of(line: &str, max_values: usize) -> (r: Vec<i32>)
    ensures
        r@ == first_values(numbers_among(pieces(line@, ';')), max_values as nat),
{
    let parts = split_on(line, ';');
    let ghost all = views(parts@);
    let mut r: Vec<i32> = Vec::new();
    let n: usize = parts.len();
    let mut i: usize = 0;
    assert(all.take(0) =~= Seq::<Seq<char>>::empty());
    while i < n && r.len() < max_values
        invariant
            n == parts@.len(),
            i <= n,
            all == views(parts@),
            all == pieces(line@, ';'),
            r@.len() <= max_values,
            r@ == numbers_among(all.take(i as int)),
        decreases n - i,
    {
        proof {
            let t = all.take(i + 1);
            assert(t.drop_last() =~= all.take(i as int));
            assert(t.last() == parts@[i as int]@);
        }
        match read_i32(parts[i].as_str()) {
            Some(v) => {
                r.push(v);
            },
            None => {},
        }
        i = i + 1;
    }
    proof {
        lemma_numbers_grow(all, i as int);
        if i == n {
            assert(all.take(i as int) =~= all);
        }
        assert(r@ =~= first_values(numbers_among(all), max_values as nat));
    }
    r
}

/// Bytes as numbers.
pub open spec fn widened(bytes: Seq<u8>) -> Seq<i32> {
    Seq::new(bytes.len(), |i: int| bytes[i] as i32)
}

/// Where the last complete frame ends.
pub open spec fn frames_end(len: nat, size: nat) -> nat {
    (len - len % size) as nat
}

/// The last complete frame among the bytes, or what there is of it up to `max` values.
pub open spec fn binary_read(bytes: Seq<u8>, size: nat, max: nat) -> ReadView {
    if bytes.len() < size {
        ReadView::Nothing
    } else {
        let end = frames_end(bytes.len(), size) as int;
        let frame = bytes.subrange(end - size, end);
        let count = if size < max {
            size
        } else {
            max
        };
        ReadView::Frame(widened(frame.take(count as int)))
    }
}

/// The bytes behind the last complete frame.
pub open spec fn left_over(bytes: Seq<u8>, size: nat) -> Seq<u8> {
    if bytes.len() < size {
        bytes
    } else {
        bytes.skip(frames_end(bytes.len(), size) as int)
    }
}

proof fn lemma_frames(len: int, size: int)
    requires
        0 < size <= len,
    ensures
        0 <= len % size < size,
        len - len % size >= size,
{
    assert(0 <= len % size < size && len - len % size >= size) by (nonlinear_arith)
        requires
            0 < size <= len,
    ;
}

/// A reader that keeps up is never behind by a frame: less than one frame is kept, and frames that
/// come whole leave nothing over.
pub proof fn law_less_than_a_frame_is_kept(bytes: Seq<u8>, size: nat)
    requires
        size > 0,
    ensures
        left_over(bytes, size).len() < size,
        left_over(bytes, size).len() == bytes.len() % size,
{
    if bytes.len() >= size {
        lemma_frames(bytes.len() as int, size as int);
    } else {
        assert(bytes.len() % size == bytes.len()) by (nonlinear_arith)
            requires
                bytes.len() < size,
        ;
    }
}

/// Of a whole frame behind any number of whole frames, it is this one that is given.
pub proof fn law_latest_frame(older: Seq<u8>, frame: Seq<u8>, max: nat)
    requires
        frame.len() > 0,
        older.len() % frame.len() == 0,
        frame.len() <= max,
    ensures
        binary_read(older + frame, frame.len(), max) == ReadView::Frame(widened(frame)),
        left_over(older + frame, frame.len()).len() == 0,
{
    let all = older + frame;
    let size = frame.len() as int;
    let before = older.len() as int;
    assert((before + size) % size == 0) by (nonlinear_arith)
        requires
            size > 0,
            before % size == 0,
    ;
    assert(all.len() % frame.len() == 0);
    assert(all.subrange(before, before + size).take(size) =~= frame);
}

} // verus!
