//! The serial line to a device.
use crate::config_manager::{Config, PriorityConfig};
use crate::error::{McubError, McubResult};
use crate::reconnection::{Attempt, Reconnection};
use crate::serial_queue::{binary_frame, json_line, QueueStats, Sent, SerialQueue};
use crate::text::{opt_view, same_text, text_from_utf8};
use vstd::prelude::*;
use vstd::string::*;
use vstd::utf8::{decode_utf8, valid_utf8};

verus! {

/// The byte that begins a binary frame.
pub const SYNC_BYTE: u8 = 0xCA;

/// A line that grows beyond this length is taken as it is.
pub const LINE_LIMIT: usize = 4096;

// ---------------------------------------------------------------------------
// Settings of the line
// ---------------------------------------------------------------------------

/// The speed that is set for the speed asked for: one of those that are known, or 115200.
pub open spec fn line_speed(baudrate: u32) -> u32 {
    if baudrate == 9600 || baudrate == 19200 || baudrate == 38400 || baudrate == 57600 || baudrate
        == 230400 || baudrate == 460800 {
        baudrate
    } else {
        115200
    }
}

/// The speed that is set for the speed asked for.
pub fn supported_speed(baudrate: u32) -> (r: u32)
    ensures
        r == line_speed(baudrate),
{
    match baudrate {
        9600 => 9600,
        19200 => 19200,
        38400 => 38400,
        57600 => 57600,
        230400 => 230400,
        460800 => 460800,
        _ => 115200,
    }
}

/// The bits of the control word of the line: those to set, those to clear, and the field that
/// holds the size of a character with its value for eight bits.
#[derive(Debug, Clone, Copy)]
pub struct ControlBits {
    /// The line is local, and it is read.
    pub set: u32,
    /// A second stop bit, and the control of the flow by the line.
    pub clear: u32,
    /// The field for the size of a character.
    pub size_mask: u32,
    /// The value of that field for eight bits.
    pub eight_bits: u32,
}

/// The control word of the line: eight bits, one stop bit, no control of the flow. The field for
/// the size is cleared before it is filled. Where the bits do not overlap, everything that is to
/// be set is set, what is to be cleared is clear, and no other bit has changed.
pub fn control_word(word: u32, bits: ControlBits) -> (r: u32)
    ensures
        r == ((word | bits.set) & !(bits.clear | bits.size_mask)) | bits.eight_bits,
        bits.eight_bits & bits.size_mask == bits.eight_bits && bits.set & (bits.clear
            | bits.size_mask) == 0 && bits.clear & bits.size_mask == 0 ==> {
            &&& r & bits.size_mask == bits.eight_bits
            &&& r & bits.clear == 0
            &&& r & bits.set == bits.set
            &&& r & !(bits.set | bits.clear | bits.size_mask) == word & !(bits.set | bits.clear
                | bits.size_mask)
        },
{
    let w: u32 = word | bits.set;
    let w: u32 = w & !(bits.clear | bits.size_mask);
    let r: u32 = w | bits.eight_bits;
    let set: u32 = bits.set;
    let clear: u32 = bits.clear;
    let mask: u32 = bits.size_mask;
    let eight: u32 = bits.eight_bits;
    assert(r == ((word | set) & !(clear | mask)) | eight);
    assert(eight & mask == eight && set & (clear | mask) == 0 && clear & mask == 0 ==> {
        &&& (((word | set) & !(clear | mask)) | eight) & mask == eight
        &&& (((word | set) & !(clear | mask)) | eight) & clear == 0
        &&& (((word | set) & !(clear | mask)) | eight) & set == set
        &&& (((word | set) & !(clear | mask)) | eight) & !(set | clear | mask) == word & !(set
            | clear | mask)
    }) by (bit_vector);
    r
}

// ---------------------------------------------------------------------------
// Lines from a device
// ---------------------------------------------------------------------------

/// The bytes without carriage returns.
pub open spec fn without_cr_bytes(bytes: Seq<u8>) -> Seq<u8>
    decreases bytes.len(),
{
    if bytes.len() == 0 {
        Seq::empty()
    } else if bytes.last() == 13 {
        without_cr_bytes(bytes.drop_last())
    } else {
        without_cr_bytes(bytes.drop_last()).push(bytes.last())
    }
}

/// No line feed stands in the bytes.
pub open spec fn no_line_feed(bytes: Seq<u8>) -> bool {
    forall|i: int| 0 <= i < bytes.len() ==> bytes[i] != 10
}

/// A line that is being read.
#[derive(Debug)]
pub struct LineReader {
    pub buf: Vec<u8>,
}

impl LineReader {
    /// Nothing was read yet.
    pub fn new() -> (r: LineReader)
        ensures
            r.buf@.len() == 0,
    {
        LineReader { buf: Vec::new() }
    }

    /// Whether the line is complete. If so, what follows it is dropped.
    pub fn complete(&mut self) -> (r: bool)
        ensures
            r == !no_line_feed(old(self).buf@),
            !r ==> final(self).buf@ == old(self).buf@,
            r ==> {
                let n = final(self).buf@.len() as int;
                &&& n < old(self).buf@.len()
                &&& final(self).buf@ == old(self).buf@.take(n)
                &&& no_line_feed(final(self).buf@)
                &&& old(self).buf@[n] == 10
            },
    {
        let mut i: usize = 0;
        while i < self.buf.len()
            invariant
                i <= self.buf@.len(),
                self.buf@ == old(self).buf@,
                no_line_feed(self.buf@.take(i as int)),
            decreases self.buf.len() - i,
        {
            if self.buf[i] == 10 {
                self.buf.truncate(i);
                assert(self.buf@ =~= old(self).buf@.take(i as int));
                return true;
            }
            assert(self.buf@.take(i + 1) =~= self.buf@.take(i as int).push(self.buf@[i as int]));
            i = i + 1;
        }
        assert(self.buf@.take(i as int) =~= self.buf@);
        false
    }

    /// Takes the bytes that came, but for carriage returns. Returns whether the line has grown too
    /// long to wait for its end.
    pub fn take(&mut self, chunk: &[u8]) -> (r: bool)
        ensures
            final(self).buf@ == old(self).buf@ + without_cr_bytes(chunk@),
            r == (final(self).buf@.len() > LINE_LIMIT),
    {
        let mut i: usize = 0;
        assert(self.buf@ =~= old(self).buf@ + without_cr_bytes(chunk@.take(0)));
        while i < chunk.len()
            invariant
                i <= chunk@.len(),
                self.buf@ == old(self).buf@ + without_cr_bytes(chunk@.take(i as int)),
            decreases chunk.len() - i,
        {
            proof {
                assert(chunk@.take(i + 1).drop_last() =~= chunk@.take(i as int));
                assert(chunk@.take(i + 1).last() == chunk@[i as int]);
            }
            if chunk[i] != 13 {
                self.buf.push(chunk[i]);
            }
            assert(self.buf@ =~= old(self).buf@ + without_cr_bytes(chunk@.take(i + 1)));
            i = i + 1;
        }
        assert(chunk@.take(i as int) =~= chunk@);
        self.buf.len() > LINE_LIMIT
    }

    /// The text of the line, if anything was read and it is valid UTF-8.
    pub fn finish(self) -> (r: Option<String>)
        ensures
            match r {
                Some(s) => self.buf@.len() > 0 && valid_utf8(self.buf@) && s@ == decode_utf8(
                    self.buf@,
                ),
                None => self.buf@.len() == 0 || !valid_utf8(self.buf@),
            },
    {
        if self.buf.len() == 0 {
            None
        } else {
            text_from_utf8(self.buf)
        }
    }
}

/// The time to wait for more bytes, in milliseconds: what remains, as far as sixteen bits hold it,
/// and at least `floor`.
pub fn poll_wait(remaining_ms: u64, floor: u16) -> (r: u16)
    ensures
        r as int == if remaining_ms % 65536 < floor {
            floor as int
        } else {
            (remaining_ms % 65536) as int
        },
{
    let low: u16 = (remaining_ms % 65536) as u16;
    if low < floor {
        floor
    } else {
        low
    }
}

// ---------------------------------------------------------------------------
// The line
// ---------------------------------------------------------------------------

/// The request that a device answers with what it is.
pub fn identify_request() -> (r: &'static str)
    ensures
        r == "{\"t\":\"id\",\"c\":\"identify\"}\n",
{
    "{\"t\":\"id\",\"c\":\"identify\"}\n"
}

/// The device to open: the one that is named, or the one of the settings, if it is there.
pub open spec fn device_to_open(
    named: Option<Seq<char>>,
    device: Seq<char>,
    exists: bool,
) -> Option<Seq<char>> {
    match named {
        Some(p) if p.len() > 0 => Some(p),
        _ => if device.len() > 0 && exists {
            Some(device)
        } else {
            None
        },
    }
}

/// The device to open: the one that the environment names, or the one of the settings, if it is
/// there.
pub fn resolve_device_path(env_path: Option<&str>, cfg_path: &str, cfg_exists: bool) -> (r:
    McubResult<String>)
    ensures
        ({
            let found = device_to_open(
                match env_path {
                    Some(p) => Some(p@),
                    None => None,
                },
                cfg_path@,
                cfg_exists,
            );
            match r {
                Ok(s) => found == Some(s@),
                Err(e) => found is None && e is DeviceNotFound,
            }
        }),
{
    match env_path {
        Some(p) => {
            if !p.is_empty() {
                return Ok(p.to_owned());
            }
        },
        None => {},
    }
    if !cfg_path.is_empty() && cfg_exists {
        return Ok(cfg_path.to_owned());
    }
    Err(McubError::DeviceNotFound)
}

/// The rest after a device was opened, in milliseconds.
pub const OPEN_REST_MS: u64 = 500;

/// What happened while the line is opened.
#[derive(Debug)]
pub enum ConnectEvent {
    /// The line is to be opened. A device may be named; that of the settings is there or not.
    Begin {
        named: Option<String>,
        device: String,
        exists: bool,
    },
    /// The device was opened, or could not be.
    Opened {
        path: String,
        result: McubResult<()>,
    },
}

/// What to do next to open the line.
#[derive(Debug)]
pub enum ConnectStep {
    /// Open this device and, once it is open, rest for so many milliseconds.
    Open(String, u64),
    /// The line is open.
    Connected,
    /// The line is closed.
    Failed(McubError),
}

/// How long the device is held in reset, in milliseconds.
pub const RESET_HOLD_MS: u64 = 100;

/// How long the device has to come up after a reset, in milliseconds.
pub const RESET_SETTLE_MS: u64 = 2000;

/// The rest between two reads of what the device wrote while it came up, in milliseconds.
pub const DRAIN_REST_MS: u64 = 50;

/// What happened while the device is reset.
#[derive(Debug, Clone, Copy, PartialEq, Eq, Structural)]
pub enum ResetEvent {
    /// It is to be reset.
    Begin,
    /// The line DTR was dropped.
    Dropped,
    /// The line DTR was raised again.
    Raised,
    /// What was there was read and thrown away: some bytes, or none.
    Drained(bool),
}

/// What to do next to reset the device.
#[derive(Debug, Clone, Copy, PartialEq, Eq, Structural)]
pub enum ResetStep {
    /// Drop the line DTR, then rest for so many milliseconds.
    DropDtr(u64),
    /// Raise the line DTR, then rest for so many milliseconds.
    RaiseDtr(u64),
    /// Rest for so many milliseconds, then read what is there, and throw it away.
    Drain(u64),
    /// The device is up, and nothing that it wrote before is left.
    Ready,
}

/// What follows an event while the device is reset. What it writes while it comes up is read away
/// until nothing is left; it is not flushed, which could cut the beginning of its reply.
pub open spec fn reset_step(event: ResetEvent) -> ResetStep {
    match event {
        ResetEvent::Begin => ResetStep::DropDtr(RESET_HOLD_MS),
        ResetEvent::Dropped => ResetStep::RaiseDtr(RESET_SETTLE_MS),
        ResetEvent::Raised => ResetStep::Drain(0),
        ResetEvent::Drained(true) => ResetStep::Drain(DRAIN_REST_MS),
        ResetEvent::Drained(false) => ResetStep::Ready,
    }
}

/// Goes on after an event while the device is reset.
pub fn reset(event: ResetEvent) -> (r: ResetStep)
    ensures
        r == reset_step(event),
{
    match event {
        ResetEvent::Begin => ResetStep::DropDtr(RESET_HOLD_MS),
        ResetEvent::Dropped => ResetStep::RaiseDtr(RESET_SETTLE_MS),
        ResetEvent::Raised => ResetStep::Drain(0),
        ResetEvent::Drained(some) => if some {
            ResetStep::Drain(DRAIN_REST_MS)
        } else {
            ResetStep::Ready
        },
    }
}

/// What happens in a reset in which `reads` reads find bytes to throw away.
pub open spec fn reset_events(reads: nat) -> Seq<ResetEvent> {
    seq![ResetEvent::Begin, ResetEvent::Dropped, ResetEvent::Raised] + Seq::new(
        reads,
        |i: int| ResetEvent::Drained(true),
    ) + seq![ResetEvent::Drained(false)]
}

/// The device is reset in this order, however much it writes: DTR is dropped for 100 ms and raised,
/// the device has two seconds to come up, and all that it wrote is read away before it is ready.
pub proof fn law_reset_order(reads: nat)
    ensures
        reset_events(reads).map_values(|e: ResetEvent| reset_step(e)) == seq![
            ResetStep::DropDtr(100),
            ResetStep::RaiseDtr(2000),
            ResetStep::Drain(0),
        ] + Seq::new(reads, |i: int| ResetStep::Drain(50)) + seq![ResetStep::Ready],
{
    let steps = reset_events(reads).map_values(|e: ResetEvent| reset_step(e));
    assert(steps =~= seq![
        ResetStep::DropDtr(100),
        ResetStep::RaiseDtr(2000),
        ResetStep::Drain(0),
    ] + Seq::new(reads, |i: int| ResetStep::Drain(50)) + seq![ResetStep::Ready]);
}

/// What happened while the device is asked for its name.
#[derive(Debug)]
pub enum AskEvent {
    /// It is to be asked.
    Begin,
    /// It is being reset.
    Reset(ResetEvent),
    /// The request was written, or could not be.
    Written(bool),
    /// What was read at first.
    First(Option<String>),
    /// What was read after a rest.
    Second(Option<String>),
}

/// What to do next to ask the device for its name.
#[derive(Debug)]
pub enum AskStep {
    /// Reset the device.
    Reset(ResetStep),
    /// Write this request.
    Write(&'static str),
    /// Read a line; give up after so many milliseconds.
    Read(u64),
    /// Rest for so many milliseconds, then read a line; give up after so many milliseconds.
    RestThenRead(u64, u64),
    /// The reply, if there is one.
    Done(Option<String>),
}

/// The time that a device has for its reply, in milliseconds.
pub const REPLY_WAIT_MS: u64 = 2000;

/// The rest before a reply is awaited a second time, in milliseconds.
pub const REPLY_REST_MS: u64 = 200;

/// What follows an event while the device is asked for its name, on a line that is open or not. It
/// is asked once, and not before it was reset.
pub open spec fn ask_step(open: bool, event: AskEvent) -> AskStep {
    match event {
        AskEvent::Begin => if open {
            AskStep::Reset(reset_step(ResetEvent::Begin))
        } else {
            AskStep::Done(None)
        },
        AskEvent::Reset(e) => match reset_step(e) {
            ResetStep::Ready => AskStep::Write("{\"t\":\"id\",\"c\":\"identify\"}\n"),
            s => AskStep::Reset(s),
        },
        AskEvent::Written(true) => AskStep::Read(REPLY_WAIT_MS),
        AskEvent::Written(false) => AskStep::Done(None),
        AskEvent::First(Some(line)) => AskStep::Done(Some(line)),
        AskEvent::First(None) => AskStep::RestThenRead(REPLY_REST_MS, REPLY_WAIT_MS),
        AskEvent::Second(reply) => AskStep::Done(reply),
    }
}

/// The serial line, with the queue of what is to be sent while it is open.
#[derive(Debug)]
pub struct SerialComm {
    pub priorities: PriorityConfig,
    pub max_queue_size: usize,
    pub poll_timeout_ms: u64,
    pub device_path: String,
    pub queue: Option<SerialQueue>,
    pub reconnection: Reconnection,
}

impl SerialComm {
    /// The queue is well formed and has the size of the settings.
    pub open spec fn well_formed(self) -> bool {
        self.queue matches Some(q) ==> q.well_formed() && q.max_queue_size == self.max_queue_size
    }

    /// A line that is not open.
    pub fn new(config: &Config) -> (r: SerialComm)
        ensures
            r.well_formed(),
            r.priorities == config.priority_levels,
            r.max_queue_size == config.performance.max_queue_size,
            r.poll_timeout_ms == config.performance.serial_poll_ms,
            r.device_path@.len() == 0,
            r.queue is None,
            r.reconnection == (Reconnection {
                max_attempts: config.bridge.connection.max_reconnect_attempts,
                attempts: 0,
                base_delay: config.bridge.connection.reconnect_delay_ns,
                current_delay: config.bridge.connection.reconnect_delay_ns,
                last_attempt: None,
            }),
    {
        SerialComm {
            priorities: config.priority_levels,
            max_queue_size: config.performance.max_queue_size as usize,
            poll_timeout_ms: config.performance.serial_poll_ms as u64,
            device_path: String::new(),
            queue: None,
            reconnection: Reconnection::new(
                config.bridge.connection.max_reconnect_attempts,
                config.bridge.connection.reconnect_delay_ns,
            ),
        }
    }

    /// The step, and what the line is after it, follow the event. Whatever comes of it, the line
    /// that was open before is closed; a line that is opened begins with an empty queue, and
    /// attempts to open it start afresh.
    pub open spec fn connect_follows(
        self,
        after: SerialComm,
        event: ConnectEvent,
        step: ConnectStep,
    ) -> bool {
        match event {
            ConnectEvent::Begin { named, device, exists } => {
                &&& after == (SerialComm { queue: None, ..self })
                &&& match device_to_open(opt_view(named), device@, exists) {
                    Some(path) => step matches ConnectStep::Open(p, rest) && p@ == path && rest
                        == OPEN_REST_MS,
                    None => step == ConnectStep::Failed(McubError::DeviceNotFound),
                }
            },
            ConnectEvent::Opened { path, result: Err(e) } => {
                &&& after == (SerialComm { queue: None, ..self })
                &&& step == ConnectStep::Failed(e)
            },
            ConnectEvent::Opened { path, result: Ok(_) } => {
                &&& step is Connected
                &&& after == (SerialComm {
                    device_path: path,
                    queue: after.queue,
                    reconnection: Reconnection {
                        attempts: 0,
                        current_delay: self.reconnection.base_delay,
                        last_attempt: None,
                        ..self.reconnection
                    },
                    ..self
                })
                &&& after.queue matches Some(q) && q.just_started(self.max_queue_size)
            },
        }
    }

    /// Goes on after an event while the line is opened.
    pub fn connect(&mut self, event: ConnectEvent) -> (r: ConnectStep)
        requires
            old(self).well_formed(),
        ensures
            final(self).well_formed(),
            old(self).connect_follows(*final(self), event, r),
    {
        match event {
            ConnectEvent::Begin { named, device, exists } => {
                let _ = self.close();
                let found = match &named {
                    Some(p) => resolve_device_path(Some(p.as_str()), device.as_str(), exists),
                    None => resolve_device_path(None, device.as_str(), exists),
                };
                match found {
                    Ok(path) => ConnectStep::Open(path, OPEN_REST_MS),
                    Err(e) => ConnectStep::Failed(e),
                }
            },
            ConnectEvent::Opened { path, result } => match result {
                Ok(_) => {
                    let mut q = SerialQueue::new(self.max_queue_size);
                    let _ = q.start();
                    self.device_path = path;
                    self.queue = Some(q);
                    self.reconnection.reset();
                    ConnectStep::Connected
                },
                Err(e) => {
                    let _ = self.close();
                    ConnectStep::Failed(e)
                },
            },
        }
    }

    /// Goes on after an event while the device is asked for its name. It is read a second time if
    /// nothing came at first.
    pub fn identify_device(&self, event: AskEvent) -> (r: AskStep)
        ensures
            r == ask_step(self.queue is Some, event),
    {
        match event {
            AskEvent::Begin => if self.queue.is_some() {
                AskStep::Reset(reset(ResetEvent::Begin))
            } else {
                AskStep::Done(None)
            },
            AskEvent::Reset(e) => match reset(e) {
                ResetStep::Ready => AskStep::Write(identify_request()),
                s => AskStep::Reset(s),
            },
            AskEvent::Written(ok) => if ok {
                AskStep::Read(REPLY_WAIT_MS)
            } else {
                AskStep::Done(None)
            },
            AskEvent::First(reply) => match reply {
                Some(line) => AskStep::Done(Some(line)),
                None => AskStep::RestThenRead(REPLY_REST_MS, REPLY_WAIT_MS),
            },
            AskEvent::Second(reply) => AskStep::Done(reply),
        }
    }

    /// Closes the line. Returns whether the worker of its queue is to be waited for.
    pub fn close(&mut self) -> (r: bool)
        requires
            old(self).well_formed(),
        ensures
            r == (old(self).queue matches Some(q) && q.running),
            *final(self) == (SerialComm { queue: None, ..*old(self) }),
            final(self).well_formed(),
    {
        match self.queue.take() {
            Some(mut q) => q.stop(),
            None => false,
        }
    }

    /// What a message leads to. Nothing, where the line is not open.
    pub open spec fn passes_on(
        self,
        after: SerialComm,
        data: Seq<u8>,
        priority: i32,
        r: Option<Sent>,
    ) -> bool {
        &&& after == (SerialComm { queue: after.queue, ..self })
        &&& match self.queue {
            Some(q) => {
                &&& after.queue matches Some(q2)
                &&& r matches Some(s)
                &&& q.accepts(q2, data, priority, s)
            },
            None => after.queue is None && r is None,
        }
    }

    /// Sends a message in JSON.
    pub fn send_message(&mut self, json_str: &str, priority: i32) -> (r: Option<Sent>)
        requires
            old(self).well_formed(),
            old(self).queue matches Some(q) ==> q.sequence_counter < u64::MAX,
        ensures
            final(self).well_formed(),
            old(self).passes_on(*final(self), json_line(json_str@), priority, r),
    {
        match self.queue.take() {
            Some(mut q) => {
                let s = q.send_json(json_str, priority);
                self.queue = Some(q);
                Some(s)
            },
            None => None,
        }
    }

    /// Sends a spectrum as a binary frame.
    pub fn send_binary_spectrum(&mut self, raw_data: &[u8], header_byte: u8, priority: i32) -> (r:
        Option<Sent>)
        requires
            old(self).well_formed(),
            old(self).queue matches Some(q) ==> q.sequence_counter < u64::MAX,
        ensures
            final(self).well_formed(),
            old(self).passes_on(
                *final(self),
                binary_frame(SYNC_BYTE, header_byte, raw_data@),
                priority,
                r,
            ),
    {
        match self.queue.take() {
            Some(mut q) => {
                let s = q.send_binary_spectrum(raw_data, header_byte, SYNC_BYTE, priority);
                self.queue = Some(q);
                Some(s)
            },
            None => None,
        }
    }

    /// The time to wait for a message: the one asked for, or the one of the settings, where none
    /// is. Nothing is read of a line that is not open.
    pub open spec fn message_wait(self, timeout_ms: u64) -> Option<u64> {
        if self.queue is None {
            None
        } else if timeout_ms == 0 {
            Some(self.poll_timeout_ms)
        } else {
            Some(timeout_ms)
        }
    }

    /// The time to wait for a message, if there is a line to read of.
    pub fn read_message(&self, timeout_ms: u64) -> (r: Option<u64>)
        ensures
            r == self.message_wait(timeout_ms),
    {
        if self.queue.is_none() {
            None
        } else if timeout_ms == 0 {
            Some(self.poll_timeout_ms)
        } else {
            Some(timeout_ms)
        }
    }

    /// Whether the device is to be opened again now.
    pub fn should_reconnect(&mut self, now: u64) -> (r: Attempt)
        requires
            old(self).reconnection.attempts < u32::MAX,
        ensures
            r.allowed == old(self).reconnection.is_due(now),
            *final(self) == (SerialComm {
                reconnection: if r.allowed {
                    old(self).reconnection.after_attempt(now)
                } else {
                    old(self).reconnection
                },
                ..*old(self)
            }),
            r.allowed ==> match r.report {
                Some(t) => old(self).reconnection.report_text("serial device"@) == Some(t@),
                None => old(self).reconnection.report_text("serial device"@) is None,
            },
            !r.allowed ==> r.report is None,
    {
        self.reconnection.should_attempt("serial device", now)
    }

    /// The priority of a level, given by its name.
    pub fn get_priority(&self, level: &str) -> (r: i32)
        ensures
            r == self.priorities.of(level@),
    {
        if same_text(level, "critical") {
            self.priorities.critical
        } else if same_text(level, "high") {
            self.priorities.high
        } else if same_text(level, "low") {
            self.priorities.low
        } else {
            self.priorities.normal
        }
    }

    /// The figures of the queue, where there is one. They start afresh.
    pub fn queue_stats(&mut self) -> (r: Option<QueueStats>)
        requires
            old(self).well_formed(),
        ensures
            final(self).well_formed(),
            match old(self).queue {
                Some(q) => {
                    &&& r == Some(q.stats)
                    &&& *final(self) == (SerialComm {
                        queue: Some(
                            SerialQueue {
                                stats: QueueStats {
                                    peak_depth: 0,
                                    write_total_ns: 0,
                                    write_max_ns: 0,
                                    writes: 0,
                                },
                                ..q
                            },
                        ),
                        ..*old(self)
                    })
                },
                None => r is None && *final(self) == *old(self),
            },
    {
        match self.queue.take() {
            Some(mut q) => {
                let s = q.stats();
                self.queue = Some(q);
                Some(s)
            },
            None => None,
        }
    }
}

/// A line that could not be opened is closed, whatever was open before: no message is taken, none
/// is read, and the device is not asked for its name.
pub proof fn law_failed_connect_closes(
    before: SerialComm,
    failed: SerialComm,
    event: ConnectEvent,
    step: ConnectStep,
    after: SerialComm,
    data: Seq<u8>,
    priority: i32,
    sent: Option<Sent>,
    timeout_ms: u64,
)
    requires
        before.connect_follows(failed, event, step),
        step is Failed,
        failed.passes_on(after, data, priority, sent),
    ensures
        sent is None,
        failed.message_wait(timeout_ms) is None,
        ask_step(failed.queue is Some, AskEvent::Begin) == AskStep::Done(None),
{
}

/// A device that is named is opened, whatever the settings say; without one, and without a device
/// of the settings that is there, none is found.
pub proof fn law_named_device_goes_first(named: Option<Seq<char>>, device: Seq<char>, exists: bool)
    ensures
        named matches Some(p) ==> p.len() > 0 ==> device_to_open(named, device, exists) == Some(p),
        device_to_open(named, device, exists) is None <==> (named matches Some(p) ==> p.len() == 0)
            && (device.len() == 0 || !exists),
{
}

/// What comes of asking a device for its name, if the request could be written or not, and if the
/// two reads give this.
pub open spec fn reply_of(
    open: bool,
    written: bool,
    first: Option<String>,
    second: Option<String>,
) -> Option<String> {
    match ask_step(open, AskEvent::Begin) {
        AskStep::Done(r) => r,
        _ => match ask_step(open, AskEvent::Written(written)) {
            AskStep::Done(r) => r,
            _ => match ask_step(open, AskEvent::First(first)) {
                AskStep::Done(r) => r,
                _ => match ask_step(open, AskEvent::Second(second)) {
                    AskStep::Done(r) => r,
                    _ => None,
                },
            },
        },
    }
}

/// The reply of a device is the first line that comes. There is none only if the line is not open,
/// the request cannot be written, or both reads give nothing. The request is written when the
/// device was reset, and at no other time.
pub proof fn law_first_line_is_the_reply(
    open: bool,
    written: bool,
    first: Option<String>,
    second: Option<String>,
    event: AskEvent,
)
    ensures
        reply_of(open, written, first, second) == if !open || !written {
            None
        } else if first is Some {
            first
        } else {
            second
        },
        ask_step(open, event) is Write <==> event == AskEvent::Reset(ResetEvent::Drained(false)),
{
}

} // verus!
