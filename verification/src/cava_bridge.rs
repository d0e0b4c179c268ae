//! The bridge that hands the spectrum on.
use crate::cava_manager::{
    bars_of, end_step, format_of, CavaManager, EndEvent, EndStep, ReadResult, ReadView,
};
use crate::config_manager::{CavaEnvConfig, Config};
use crate::json::{spectrum_json, spectrum_text};
use crate::reconnection::{elapsed, elapsed_ns};
use crate::text::same_text;
use vstd::prelude::*;
use vstd::string::*;
use vstd::utf8::encode_utf8;

verus! {

/// The time between two reports, in nanoseconds.
pub const STATS_INTERVAL_NS: u64 = 60_000_000_000;

/// The time to rest when nothing was read, in nanoseconds.
pub const IDLE_SLEEP_NS: u64 = 5_000_000;

/// The time that a read may take, in nanoseconds.
pub const READ_TIMEOUT_NS: u64 = 5_000_000;

/// The time to wait for the loopback device, in seconds.
pub const LOOPBACK_WAIT_SECS: u32 = 120;

/// The largest number of values of a frame.
pub const MAX_VALUES: usize = 64;

/// The largest number of frames that are left out after one that could not be sent.
pub const MAX_SKIP: u32 = 8;

// ---------------------------------------------------------------------------
// Frames that are left out
// ---------------------------------------------------------------------------

/// How many frames are left out, and how many of them are still to come.
#[derive(Debug, Clone, Copy, PartialEq, Eq, Structural)]
pub struct FrameSkip {
    pub count: u32,
    pub remaining: u32,
}

/// How many frames are left out after one more that could not be sent.
pub open spec fn more_skipped(count: u32) -> u32 {
    if count < 1 {
        1
    } else if count * 2 < MAX_SKIP {
        (count * 2) as u32
    } else {
        MAX_SKIP
    }
}

/// How many frames are left out after `n` in a row that could not be sent.
pub open spec fn skipped_after(n: nat) -> u32
    decreases n,
{
    if n == 0 {
        0
    } else {
        more_skipped(skipped_after((n - 1) as nat))
    }
}

impl FrameSkip {
    pub open spec fn well_formed(self) -> bool {
        self.count <= MAX_SKIP && self.remaining <= MAX_SKIP
    }

    /// No frame is left out.
    pub fn new() -> (r: FrameSkip)
        ensures
            r.count == 0,
            r.remaining == 0,
            r.well_formed(),
    {
        FrameSkip { count: 0, remaining: 0 }
    }

    /// Whether the next frame is to be sent.
    pub fn pass(&mut self) -> (r: bool)
        ensures
            r == (old(self).remaining == 0),
            final(self).count == old(self).count,
            final(self).remaining == if r {
                0
            } else {
                (old(self).remaining - 1) as u32
            },
    {
        if self.remaining > 0 {
            self.remaining = self.remaining - 1;
            false
        } else {
            true
        }
    }

    /// Takes note of a frame that was sent or could not be.
    pub fn record(&mut self, sent: bool)
        requires
            old(self).well_formed(),
        ensures
            final(self).well_formed(),
            sent ==> final(self).count == 0 && final(self).remaining == old(self).remaining,
            !sent ==> final(self).count == more_skipped(old(self).count) && final(self).remaining
                == final(self).count,
    {
        if sent {
            self.count = 0;
        } else {
            self.count = if self.count < 1 {
                1
            } else if self.count * 2 < MAX_SKIP {
                self.count * 2
            } else {
                MAX_SKIP
            };
            self.remaining = self.count;
        }
    }
}

/// However long the device takes nothing, a frame is tried again after at most eight: the number
/// of those left out doubles, from 1 up to 8.
pub proof fn law_skip_is_bounded(n: nat)
    ensures
        skipped_after(n) <= MAX_SKIP,
        n > 0 ==> 1 <= skipped_after(n),
        n >= 4 ==> skipped_after(n) == MAX_SKIP,
        skipped_after(n) <= skipped_after(n + 1),
    decreases n,
{
    if n > 0 {
        law_skip_is_bounded((n - 1) as nat);
    }
    reveal_with_fuel(skipped_after, 6);
}

// ---------------------------------------------------------------------------
// Messages
// ---------------------------------------------------------------------------

/// A frame as it goes to the device.
#[derive(Debug)]
pub enum SpectrumMessage {
    /// The bars, one byte each, and the header.
    Binary {
        bars: Vec<u8>,
        header: u8,
    },
    /// A message of JSON.
    Json(String),
}

/// A frame as it goes to the device, by its view.
pub enum SpectrumView {
    Binary {
        bars: Seq<u8>,
        header: u8,
    },
    Json(Seq<char>),
}

impl View for SpectrumMessage {
    type V = SpectrumView;

    open spec fn view(&self) -> SpectrumView {
        match self {
            SpectrumMessage::Binary { bars, header } => SpectrumView::Binary {
                bars: bars@,
                header: *header,
            },
            SpectrumMessage::Json(s) => SpectrumView::Json(s@),
        }
    }
}

impl SpectrumMessage {
    /// The number of bytes of the message, without a line end.
    pub fn size(&self) -> (r: usize)
        requires
            self@ matches SpectrumView::Binary { bars, .. } ==> bars.len() + 2 <= usize::MAX,
        ensures
            r == message_size(self@),
    {
        match self {
            SpectrumMessage::Binary { bars, .. } => bars.len() + 2,
            SpectrumMessage::Json(s) => s.as_str().as_bytes().len(),
        }
    }
}

/// The byte that stands for a value: its lowest eight bits.
pub open spec fn low_byte(v: i32) -> u8 {
    (v as int % 256) as u8
}

/// The bytes of the bars of a frame: those of its first 64 values.
pub open spec fn bar_bytes(values: Seq<i32>) -> Seq<u8> {
    let n = if values.len() < MAX_VALUES {
        values.len()
    } else {
        MAX_VALUES as nat
    };
    Seq::new(n, |i: int| low_byte(values[i]))
}

/// The message of a frame for a device of the given format.
pub open spec fn message_of(device_format: Seq<char>, values: Seq<i32>, header: u8) -> SpectrumView {
    if device_format == "binary"@ {
        SpectrumView::Binary { bars: bar_bytes(values), header }
    } else {
        SpectrumView::Json(spectrum_text(values))
    }
}

/// The number of bytes of a message, without a line end: a binary frame has two before its bars.
pub open spec fn message_size(m: SpectrumView) -> nat {
    match m {
        SpectrumView::Binary { bars, .. } => bars.len() + 2,
        SpectrumView::Json(s) => encode_utf8(s).len(),
    }
}

fn byte_of(v: i32) -> (r: u8)
    ensures
        r == low_byte(v),
{
    let m: i64 = (v as i64 + 4_294_967_296) % 256;
    assert((v as int + 4_294_967_296) % 256 == v as int % 256);
    m as u8
}

/// The message of a frame for a device of the given format.
pub fn spectrum_message(device_format: &str, values: &Vec<i32>, header: u8) -> (r: SpectrumMessage)
    ensures
        r@ == message_of(device_format@, values@, header),
{
    if same_text(device_format, "binary") {
        let mut bars: Vec<u8> = Vec::new();
        let mut i: usize = 0;
        while i < values.len() && i < MAX_VALUES
            invariant
                i <= values@.len(),
                i <= MAX_VALUES,
                bars@.len() == i,
                forall|k: int| 0 <= k < i ==> bars@[k] == low_byte(values@[k]),
            decreases values.len() - i,
        {
            bars.push(byte_of(values[i]));
            i = i + 1;
        }
        assert(bars@ =~= bar_bytes(values@));
        SpectrumMessage::Binary { bars, header }
    } else {
        SpectrumMessage::Json(spectrum_json(values))
    }
}

// ---------------------------------------------------------------------------
// The bridge
// ---------------------------------------------------------------------------

/// What happened while the bridge comes up, or that it has run.
#[derive(Debug, Clone, Copy, PartialEq, Eq, Structural)]
pub enum CavaEvent {
    /// The line was opened, or could not be.
    Connected(bool),
    /// The device gave its name, or did not.
    Identified(bool),
    /// The analyser runs, or could not be started.
    Started(bool),
    /// The loop has ended: the analyser did, or a signal came.
    Ended,
}

/// What to do next.
#[derive(Debug, Clone, Copy, PartialEq, Eq, Structural)]
pub enum CavaStep {
    Identify,
    /// Start the analyser; wait so many seconds for the loopback device.
    Start(u32),
    Loop,
    /// Leave with this exit code.
    Exit(i32),
}

/// What follows an event while the bridge comes up: a device that does not give its name is used
/// all the same.
pub open spec fn cava_step(event: CavaEvent) -> CavaStep {
    match event {
        CavaEvent::Connected(true) => CavaStep::Identify,
        CavaEvent::Connected(false) => CavaStep::Exit(1),
        CavaEvent::Identified(_) => CavaStep::Start(LOOPBACK_WAIT_SECS),
        CavaEvent::Started(true) => CavaStep::Loop,
        CavaEvent::Started(false) => CavaStep::Exit(1),
        CavaEvent::Ended => CavaStep::Exit(0),
    }
}

/// What to do with what was read.
#[derive(Debug, Clone, Copy, PartialEq, Eq, Structural)]
pub enum FrameStep {
    /// The analyser has ended: leave.
    Stop,
    /// Send the frame.
    Send,
    /// Leave the frame out.
    Skip,
    /// Rest for so many nanoseconds.
    Rest(u64),
}

/// What to do with what was read, if so many frames are yet to be left out.
pub open spec fn frame_step(read: ReadView, remaining: u32) -> FrameStep {
    match read {
        ReadView::Exited => FrameStep::Stop,
        ReadView::Frame(_) => if remaining > 0 {
            FrameStep::Skip
        } else {
            FrameStep::Send
        },
        ReadView::Nothing => FrameStep::Rest(IDLE_SLEEP_NS),
    }
}

/// Decides what to do with what was read.
pub fn next_frame_step(skip: &mut FrameSkip, read: &ReadResult) -> (r: FrameStep)
    ensures
        r == frame_step(read@, old(skip).remaining),
        *final(skip) == (FrameSkip {
            remaining: if r == FrameStep::Skip {
                (old(skip).remaining - 1) as u32
            } else {
                old(skip).remaining
            },
            ..*old(skip)
        }),
{
    match read {
        ReadResult::Exited => FrameStep::Stop,
        ReadResult::Frame(_) => if skip.pass() {
            FrameStep::Send
        } else {
            FrameStep::Skip
        },
        ReadResult::Nothing => FrameStep::Rest(IDLE_SLEEP_NS),
    }
}

/// What a report tells: the frames and bytes since the last one, and the time since then.
#[derive(Debug, Clone, Copy, PartialEq, Eq, Structural)]
pub struct CavaReport {
    pub frames: u32,
    pub bytes_sent: usize,
    pub elapsed_ns: u64,
}

/// The bridge: the analyser, the format of the device, and what the next report will tell.
#[derive(Debug)]
pub struct CavaBridge {
    pub cava: CavaManager,
    pub device_format: String,
    pub stats_cava_frames: u32,
    pub stats_bytes_sent: usize,
    pub stats_last_report: u64,
    pub skip: FrameSkip,
}

impl CavaBridge {
    /// The bridge at the time `now`, for a device that the environment describes. The analyser is
    /// not started, and nothing was sent yet.
    pub fn new(config: &Config, env: CavaEnvConfig, now: u64) -> (r: CavaBridge)
        requires
            bars_of(env.spectrum_bars, config.cava.defaults.spectrum_bars) * 8 <= usize::MAX,
        ensures
            !r.cava.running,
            r.cava.binary_buffer@.len() == 0,
            r.cava.spectrum_bars == bars_of(
                env.spectrum_bars,
                config.cava.defaults.spectrum_bars,
            ),
            r.cava.frame_size == r.cava.spectrum_bars,
            r.cava.read_chunk_size == r.cava.spectrum_bars * 8,
            r.cava.cava_format == format_of(
                Some(env.cava_format@),
                config.cava.defaults.data_format@,
            ),
            !r.cava.binary_fd_configured,
            r.device_format == env.device_format,
            r.stats_cava_frames == 0,
            r.stats_bytes_sent == 0,
            r.stats_last_report == now,
            r.skip == (FrameSkip { count: 0, remaining: 0 }),
    {
        let cava = CavaManager::new(config, Some(env.cava_format.as_str()), env.spectrum_bars);
        CavaBridge {
            cava,
            device_format: env.device_format,
            stats_cava_frames: 0,
            stats_bytes_sent: 0,
            stats_last_report: now,
            skip: FrameSkip::new(),
        }
    }

    /// Goes on after an event while the bridge comes up, or leaves after it has run.
    pub fn run(event: CavaEvent) -> (r: CavaStep)
        ensures
            r == cava_step(event),
    {
        match event {
            CavaEvent::Connected(ok) => if ok {
                CavaStep::Identify
            } else {
                CavaStep::Exit(1)
            },
            CavaEvent::Identified(_) => CavaStep::Start(LOOPBACK_WAIT_SECS),
            CavaEvent::Started(ok) => if ok {
                CavaStep::Loop
            } else {
                CavaStep::Exit(1)
            },
            CavaEvent::Ended => CavaStep::Exit(0),
        }
    }

    /// Decides what to do with what was read.
    pub fn take_frame(&mut self, read: &ReadResult) -> (r: FrameStep)
        ensures
            r == frame_step(read@, old(self).skip.remaining),
            final(self).skip.remaining == if r == FrameStep::Skip {
                (old(self).skip.remaining - 1) as u32
            } else {
                old(self).skip.remaining
            },
            final(self).skip.count == old(self).skip.count,
            final(self).cava == old(self).cava,
            final(self).device_format == old(self).device_format,
            final(self).stats_cava_frames == old(self).stats_cava_frames,
            final(self).stats_bytes_sent == old(self).stats_bytes_sent,
            final(self).stats_last_report == old(self).stats_last_report,
    {
        next_frame_step(&mut self.skip, read)
    }

    /// The message of a frame.
    pub fn process_and_send(&self, data: &Vec<i32>) -> (r: SpectrumMessage)
        ensures
            r@ == message_of(
                self.device_format@,
                data@,
                (self.cava.spectrum_bars % 128) as u8,
            ),
    {
        spectrum_message(self.device_format.as_str(), data, self.cava.binary_header())
    }

    /// Counts a frame of `size` bytes that goes to the device.
    pub fn count_frame(&mut self, size: usize)
        requires
            old(self).stats_cava_frames < u32::MAX,
            old(self).stats_bytes_sent + size <= usize::MAX,
        ensures
            final(self).stats_cava_frames == old(self).stats_cava_frames + 1,
            final(self).stats_bytes_sent == old(self).stats_bytes_sent + size,
            final(self).cava == old(self).cava,
            final(self).device_format == old(self).device_format,
            final(self).stats_last_report == old(self).stats_last_report,
            final(self).skip == old(self).skip,
    {
        self.stats_cava_frames = self.stats_cava_frames + 1;
        self.stats_bytes_sent = self.stats_bytes_sent + size;
    }

    /// Takes note of a frame that the queue took or did not.
    pub fn record_sent(&mut self, sent: bool)
        requires
            old(self).skip.well_formed(),
        ensures
            final(self).skip.well_formed(),
            sent ==> final(self).skip.count == 0,
            sent ==> final(self).skip.remaining == old(self).skip.remaining,
            !sent ==> final(self).skip.count == more_skipped(old(self).skip.count),
            !sent ==> final(self).skip.remaining == final(self).skip.count,
            final(self).cava == old(self).cava,
            final(self).device_format == old(self).device_format,
            final(self).stats_cava_frames == old(self).stats_cava_frames,
            final(self).stats_bytes_sent == old(self).stats_bytes_sent,
            final(self).stats_last_report == old(self).stats_last_report,
    {
        self.skip.record(sent);
    }

    /// The report that is due at the time `now`, if one is: a minute after the last. The counts
    /// then start anew.
    pub fn report_stats(&mut self, now: u64) -> (r: Option<CavaReport>)
        ensures
            ({
                let past = elapsed(old(self).stats_last_report, now);
                if past < STATS_INTERVAL_NS {
                    r is None && *final(self) == *old(self)
                } else {
                    &&& r == Some(
                        CavaReport {
                            frames: old(self).stats_cava_frames,
                            bytes_sent: old(self).stats_bytes_sent,
                            elapsed_ns: past,
                        },
                    )
                    &&& *final(self) == (CavaBridge {
                        stats_cava_frames: 0,
                        stats_bytes_sent: 0,
                        stats_last_report: now,
                        ..*old(self)
                    })
                }
            }),
    {
        let past: u64 = elapsed_ns(self.stats_last_report, now);
        if past < STATS_INTERVAL_NS {
            return None;
        }
        let report = CavaReport {
            frames: self.stats_cava_frames,
            bytes_sent: self.stats_bytes_sent,
            elapsed_ns: past,
        };
        self.stats_cava_frames = 0;
        self.stats_bytes_sent = 0;
        self.stats_last_report = now;
        Some(report)
    }

    /// Goes on after an event while the analyser is ended.
    pub fn cleanup(&mut self, event: EndEvent) -> (r: EndStep)
        ensures
            r == end_step(old(self).cava.running, event),
            event == EndEvent::Begin ==> !final(self).cava.running
                && final(self).cava.binary_buffer@.len() == 0,
            event != EndEvent::Begin ==> final(self).cava.running == old(self).cava.running
                && final(self).cava.binary_buffer == old(self).cava.binary_buffer,
            final(self).cava.spectrum_bars == old(self).cava.spectrum_bars,
            final(self).cava.frame_size == old(self).cava.frame_size,
            final(self).cava.read_chunk_size == old(self).cava.read_chunk_size,
            final(self).cava.cava_format == old(self).cava.cava_format,
            final(self).cava.binary_fd_configured == old(self).cava.binary_fd_configured,
            final(self).device_format == old(self).device_format,
            final(self).stats_cava_frames == old(self).stats_cava_frames,
            final(self).stats_bytes_sent == old(self).stats_bytes_sent,
            final(self).stats_last_report == old(self).stats_last_report,
            final(self).skip == old(self).skip,
    {
        self.cava.cleanup(event)
    }
}

/// The bridge leaves with 1 exactly if the line could not be opened or the analyser not be started,
/// and with 0 after its loop, whether the analyser has ended or a signal came.
pub proof fn law_exit_codes(event: CavaEvent)
    ensures
        cava_step(event) == CavaStep::Exit(1) <==> event == CavaEvent::Connected(false) || event
            == CavaEvent::Started(false),
        cava_step(event) == CavaStep::Exit(0) <==> event == CavaEvent::Ended,
{
}

} // verus!
