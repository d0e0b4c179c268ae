//! What holds of the serial line: its speed, its queue, and when it is opened again.
use crate::config_manager::PriorityConfig;
use crate::error::McubError;
use crate::reconnection::{elapsed, rounded_secs, Reconnection};
use crate::serial_comm::{
    ask_step, line_speed, no_line_feed, without_cr_bytes, AskEvent, AskStep, ConnectEvent, ConnectStep,
    SerialComm,
};
use crate::serial_queue::{json_line, rank, with_item, ItemView, Sent, SerialQueue};
use crate::text::dec;
use vstd::prelude::*;
use vstd::string::*;
use vstd::utf8::encode_utf8;

verus! {

// ---------------------------------------------------------------------------
// Time
// ---------------------------------------------------------------------------

/// The time that went by leads from the one moment to the other; the clock does not run backwards.
pub proof fn law_elapsed(from: u64, to: u64)
    ensures
        from <= to ==> from + elapsed(from, to) == to,
        from > to ==> elapsed(from, to) == 0,
{
}

/// A time in whole seconds is never off by more than half a second, and of two that are equally near
/// it is the even one.
pub proof fn law_rounded(ns: u64)
    ensures
        ({
            let s = rounded_secs(ns) as int * 1_000_000_000;
            &&& -500_000_000 <= s - ns <= 500_000_000
            &&& s - ns == 500_000_000 || ns - s == 500_000_000 ==> rounded_secs(ns) % 2 == 0
        }),
{
}

// ---------------------------------------------------------------------------
// Attempts
// ---------------------------------------------------------------------------

/// An attempt is due at once the first time, and then as soon as the interval has gone by since the
/// last. It is counted, and the interval doubles, up to a minute.
pub proof fn law_attempts(r: Reconnection, last: u64, now: u64)
    requires
        r.last_attempt is None || (r.last_attempt == Some(last) && last <= now),
        r.attempts < u32::MAX,
    ensures
        r.last_attempt is None ==> r.is_due(now),
        r.last_attempt is Some ==> (r.is_due(now) <==> now >= last + r.current_delay),
        ({
            let after = r.after_attempt(now);
            &&& after.attempts == r.attempts + 1
            &&& after.last_attempt == Some(now)
            &&& after.base_delay == r.base_delay && after.max_attempts == r.max_attempts
            &&& 2 * r.current_delay <= 60_000_000_000 ==> after.current_delay == 2 * r.current_delay
            &&& 2 * r.current_delay > 60_000_000_000 ==> after.current_delay == 60_000_000_000
        }),
{
}

/// The first five attempts are told by their number, the sixth once more with the interval, and none
/// after that. What is told begins with the name of what is reached for.
pub proof fn law_reports(r: Reconnection, name: Seq<char>)
    ensures
        ({
            let n = r.attempts + 1;
            &&& n <= 5 ==> r.report_text(name) == Some(name + ": retry "@ + dec(n as nat))
            &&& n == 6 ==> r.report_text(name) == Some(
                name + ": retry suppressed (interval="@ + dec(rounded_secs(r.current_delay)) + "s)"@,
            )
            &&& n > 6 ==> r.report_text(name) is None
        }),
{
}

// ---------------------------------------------------------------------------
// The line
// ---------------------------------------------------------------------------

/// The line has one of seven speeds: the one asked for, if it is among them, and 115200 otherwise.
pub proof fn law_speed(asked: u32)
    ensures
        ({
            let s = line_speed(asked);
            let known = |b: u32|
                b == 9600 || b == 19200 || b == 38400 || b == 57600 || b == 115200 || b == 230400 || b
                    == 460800;
            &&& known(s)
            &&& known(asked) ==> s == asked
            &&& !known(asked) ==> s == 115200
        }),
{
}

/// The line is opened in this order: what was open before is closed; the device that is named is
/// opened, or that of the settings, if it is there; and once it is open, the queue starts empty and
/// attempts start afresh. A fault is handed back as it is.
pub proof fn law_opening(
    before: SerialComm,
    after: SerialComm,
    event: ConnectEvent,
    step: ConnectStep,
)
    requires
        before.connect_follows(after, event, step),
    ensures
        step is Connected <==> (event matches ConnectEvent::Opened { path, result } && result is Ok),
        after.queue is Some <==> step is Connected,
        event matches ConnectEvent::Opened { path, result } ==> {
            &&& result is Ok ==> after.device_path == path && after.reconnection.attempts == 0
                && after.reconnection.last_attempt is None && after.reconnection.current_delay
                == before.reconnection.base_delay
            &&& result matches Err(e) ==> step == ConnectStep::Failed(e)
        },
        event matches ConnectEvent::Begin { named, device, exists } ==> {
            &&& named matches Some(n) ==> (n@.len() > 0 ==> (step matches ConnectStep::Open(p, ms)
                && p@ == n@))
            &&& (named is None || named->0@.len() == 0) && device@.len() > 0 && exists ==> (
            step matches ConnectStep::Open(p, ms) && p@ == device@)
            &&& (named is None || named->0@.len() == 0) && (device@.len() == 0 || !exists) ==> step
                == ConnectStep::Failed(McubError::DeviceNotFound)
        },
        step matches ConnectStep::Open(_, ms) ==> ms == 500,
        after.max_queue_size == before.max_queue_size,
        after.queue matches Some(q) ==> {
            &&& q.waiting().len() == 0 && q.running && !q.device_disconnected
            &&& q.max_queue_size == before.max_queue_size
            &&& q.consecutive_errors == 0 && q.sequence_counter == 0
            &&& q.stats.peak_depth == 0 && q.stats.writes == 0 && q.stats.write_total_ns == 0
                && q.stats.write_max_ns == 0
        },
{
}

/// A message is awaited for the time that is asked for; where none is, for that of the settings; and of
/// a line that is not open nothing is read.
pub proof fn law_waits(line: SerialComm, timeout_ms: u64)
    ensures
        line.queue is None ==> line.message_wait(timeout_ms) is None,
        line.queue is Some && timeout_ms > 0 ==> line.message_wait(timeout_ms) == Some(timeout_ms),
        line.queue is Some ==> line.message_wait(0) == Some(line.poll_timeout_ms),
{
}

/// A device is asked once: after the reset that begins it, the request is written, and a line is read,
/// for two seconds; nothing in the first read leads to a second, after a rest.
pub proof fn law_asking(open: bool, event: AskEvent)
    ensures
        ask_step(open, event) matches AskStep::Read(ms) ==> event == AskEvent::Written(true) && ms
            == 2000,
        event == AskEvent::Written(true) ==> ask_step(open, event) is Read,
        ask_step(open, event) matches AskStep::RestThenRead(rest, ms) ==> event == AskEvent::First(None)
            && rest == 200 && ms == 2000,
        event == AskEvent::First(None) ==> ask_step(open, event) is RestThenRead,
        event == AskEvent::Begin ==> (ask_step(open, event) is Reset <==> open),
        ask_step(open, event) matches AskStep::Reset(s) ==> !(s is Ready),
        event matches AskEvent::First(Some(line)) ==> ask_step(open, event) == AskStep::Done(
            Some(line),
        ),
        event matches AskEvent::Second(reply) ==> ask_step(open, event) == AskStep::Done(reply),
{
}

// ---------------------------------------------------------------------------
// The queue
// ---------------------------------------------------------------------------

/// What becomes of a message: it is refused exactly if the queue does not run; one of negative
/// priority is written at once, as it is, unless the device is gone; any other waits exactly if there
/// is room for it, and a queue that refuses one is what it was.
pub proof fn law_messages_are_taken(
    before: SerialQueue,
    after: SerialQueue,
    data: Seq<u8>,
    priority: i32,
    r: Sent,
)
    requires
        before.accepts(after, data, priority, r),
        before.sequence_counter < u64::MAX,
    ensures
        r is NotRunning <==> !before.running,
        r is Disconnected <==> before.running && priority < 0 && before.device_disconnected,
        r is WriteNow <==> before.running && priority < 0 && !before.device_disconnected,
        r is Full <==> before.running && priority >= 0 && before.waiting().len()
            >= before.max_queue_size,
        r is Queued <==> before.running && priority >= 0 && before.waiting().len()
            < before.max_queue_size,
        r matches Sent::WriteNow(d) ==> d@ == data,
        !(r is Queued) ==> after == before,
        r is Queued ==> {
            let item = ItemView { priority, sequence: (before.sequence_counter + 1) as u64, data };
            &&& after.waiting() == with_item(before.waiting(), item)
            &&& after.sequence_counter > before.sequence_counter
            &&& after.stats.peak_depth >= before.stats.peak_depth && after.stats.peak_depth
                >= after.waiting().len()
            &&& after.stats.peak_depth == before.stats.peak_depth || after.stats.peak_depth
                == after.waiting().len()
            &&& after.running && after.device_disconnected == before.device_disconnected
            &&& after.max_queue_size == before.max_queue_size && after.consecutive_errors
                == before.consecutive_errors
            &&& after.stats.writes == before.stats.writes && after.stats.write_total_ns
                == before.stats.write_total_ns && after.stats.write_max_ns
                == before.stats.write_max_ns
        },
{
    assert(after.waiting().len() == after.items.len());
}

/// A message waits behind exactly those whose priority number is no larger than its own.
pub proof fn law_rank(s: Seq<ItemView>, item: ItemView, priority: i32)
    ensures
        rank(Seq::empty(), priority) == 0,
        rank(s.push(item), priority) == rank(s, priority) + if item.priority <= priority {
            1nat
        } else {
            0
        },
{
    assert(s.push(item).drop_last() =~= s);
}

/// A write that succeeds ends a row of failures and is counted with its time; one that fails adds to
/// the row, and the third in a row means that the device is gone. Nothing else changes.
pub proof fn law_writes(q: SerialQueue, took_ns: u64)
    requires
        q.consecutive_errors < u32::MAX,
        q.stats.write_total_ns + took_ns <= u64::MAX,
        q.stats.writes < usize::MAX,
    ensures
        ({
            let good = q.after_write(true, took_ns);
            let bad = q.after_write(false, took_ns);
            &&& good.consecutive_errors == 0
            &&& good.device_disconnected == q.device_disconnected
            &&& good.stats.writes == q.stats.writes + 1
            &&& good.stats.write_total_ns == q.stats.write_total_ns + took_ns
            &&& good.stats.write_max_ns >= took_ns && good.stats.write_max_ns >= q.stats.write_max_ns
            &&& good.stats.write_max_ns == took_ns || good.stats.write_max_ns == q.stats.write_max_ns
            &&& good.items == q.items && bad.items == q.items
            &&& bad.consecutive_errors == q.consecutive_errors + 1
            &&& !q.device_disconnected ==> (bad.device_disconnected <==> bad.consecutive_errors >= 3)
            &&& q.device_disconnected ==> bad.device_disconnected
            &&& bad.stats == q.stats
            &&& good.running == q.running && bad.running == q.running
        }),
        q.writable() <==> q.running && !q.device_disconnected,
{
}

/// Of what a device sends the carriage returns are left out, and nothing else; a line goes up to the
/// first line feed.
pub proof fn law_carriage_returns(b: u8, bytes: Seq<u8>)
    ensures
        without_cr_bytes(Seq::empty()).len() == 0,
        b == 13 ==> without_cr_bytes(bytes.push(b)) == without_cr_bytes(bytes),
        b != 13 ==> without_cr_bytes(bytes.push(b)) == without_cr_bytes(bytes).push(b),
        no_line_feed(bytes) <==> !bytes.contains(10u8),
{
    assert(bytes.push(b).drop_last() =~= bytes);
}

/// What is sent on an open line goes to its queue, and on a line that is not open nowhere; the line
/// stays what it is but for its queue.
pub proof fn law_sending(
    before: SerialComm,
    after: SerialComm,
    data: Seq<u8>,
    priority: i32,
    r: Option<Sent>,
)
    requires
        before.passes_on(after, data, priority, r),
    ensures
        r is Some <==> before.queue is Some,
        after.queue is Some <==> before.queue is Some,
        r matches Some(s) ==> before.queue->0.accepts(after.queue->0, data, priority, s),
        after.device_path == before.device_path && after.reconnection == before.reconnection,
        after.priorities == before.priorities && after.max_queue_size == before.max_queue_size
            && after.poll_timeout_ms == before.poll_timeout_ms,
{
}

/// A message in JSON goes out as its bytes, and a line feed ends it.
pub proof fn law_line_feed_ends_a_message(json: Seq<char>)
    ensures
        json_line(json).last() == 10,
        json_line(json).drop_last() == encode_utf8(json),
{
    assert(json_line(json).drop_last() =~= encode_utf8(json));
}

/// Each level has its own priority; a name that is none of the levels means the normal one.
pub proof fn law_priorities(p: PriorityConfig, level: Seq<char>)
    ensures
        p.of("critical"@) == p.critical,
        p.of("high"@) == p.high,
        p.of("normal"@) == p.normal,
        p.of("low"@) == p.low,
        level != "critical"@ && level != "high"@ && level != "low"@ ==> p.of(level) == p.normal,
{
    reveal_strlit("critical");
    reveal_strlit("high");
    reveal_strlit("normal");
    reveal_strlit("low");
    assert("critical"@.len() == 8 && "high"@.len() == 4 && "normal"@.len() == 6 && "low"@.len() == 3);
}

} // verus!
