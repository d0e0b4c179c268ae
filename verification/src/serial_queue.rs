//! The queue of messages to a device.
//!
//! Of two messages the one with the lower priority number leaves first, and of two with the same
//! number the older one. A negative number goes past the queue.
use vstd::prelude::*;
use vstd::string::*;
use vstd::utf8::encode_utf8;

verus! {

/// So many failed writes in a row mean that the device is gone.
pub const MAX_CONSECUTIVE_ERRORS: u32 = 3;

/// The longest time that the worker waits for a message at once, in milliseconds.
pub const WORKER_WAIT_MS: u64 = 10;

/// A message that waits.
#[derive(Debug)]
pub struct QueueItem {
    pub priority: i32,
    pub sequence: u64,
    pub data: Vec<u8>,
}

/// A message that waits, by its content.
pub struct ItemView {
    pub priority: i32,
    pub sequence: u64,
    pub data: Seq<u8>,
}

impl View for QueueItem {
    type V = ItemView;

    open spec fn view(&self) -> ItemView {
        ItemView { priority: self.priority, sequence: self.sequence, data: self.data@ }
    }
}

impl ItemView {
    /// The message leaves before the other.
    pub open spec fn leaves_before(self, other: ItemView) -> bool {
        self.priority < other.priority || (self.priority == other.priority && self.sequence
            < other.sequence)
    }
}

/// Messages that wait, by their content.
pub open spec fn item_views(items: Seq<QueueItem>) -> Seq<ItemView> {
    Seq::new(items.len(), |i: int| items[i]@)
}

/// The messages stand in the order in which they leave.
pub open spec fn in_order(s: Seq<ItemView>) -> bool {
    forall|i: int, j: int| 0 <= i < j < s.len() ==> s[i].leaves_before(s[j])
}

/// How many messages have a priority number up to `priority`.
pub open spec fn rank(s: Seq<ItemView>, priority: i32) -> nat
    decreases s.len(),
{
    if s.len() == 0 {
        0
    } else {
        rank(s.drop_last(), priority) + if s.last().priority <= priority {
            1nat
        } else {
            0
        }
    }
}

/// The messages after a new one came, which leaves after those with a priority number up to its
/// own.
pub open spec fn with_item(s: Seq<ItemView>, item: ItemView) -> Seq<ItemView> {
    let k = rank(s, item.priority) as int;
    s.take(k).push(item) + s.skip(k)
}

/// What becomes of a message.
#[derive(Debug)]
pub enum Sent {
    /// The queue does not run.
    NotRunning,
    /// The device is gone.
    Disconnected,
    /// The queue is full.
    Full,
    /// The message waits.
    Queued,
    /// The message is to be written at once.
    WriteNow(Vec<u8>),
}

/// What the worker is to do next.
#[derive(Debug)]
pub enum WorkerStep {
    /// End.
    Exit,
    /// Wait for a message; look again after so many milliseconds.
    Wait(u64),
    /// Write the message.
    Write(Vec<u8>),
}

/// What came of a write.
#[derive(Debug, Clone, Copy)]
pub struct Written {
    pub ok: bool,
    /// The device is gone, and that is news.
    pub lost: bool,
}

/// Figures of the queue since they were last asked for. Times are in nanoseconds.
#[derive(Debug, Clone, Copy)]
pub struct QueueStats {
    pub peak_depth: usize,
    pub write_total_ns: u64,
    pub write_max_ns: u64,
    pub writes: usize,
}

impl QueueStats {
    /// The average time of a write, rounded down; 0 where there was none.
    pub fn write_avg_ns(&self) -> (r: u64)
        ensures
            r as int == if self.writes > 0 {
                self.write_total_ns as int / self.writes as int
            } else {
                0
            },
    {
        if self.writes > 0 {
            self.write_total_ns / self.writes as u64
        } else {
            0
        }
    }
}

#[derive(Debug)]
pub struct SerialQueue {
    pub items: Vec<QueueItem>,
    pub sequence_counter: u64,
    pub running: bool,
    pub device_disconnected: bool,
    pub max_queue_size: usize,
    pub consecutive_errors: u32,
    pub stats: QueueStats,
}

proof fn lemma_rank_bounds(s: Seq<ItemView>, p: i32)
    ensures
        rank(s, p) <= s.len(),
    decreases s.len(),
{
    if s.len() > 0 {
        lemma_rank_bounds(s.drop_last(), p);
    }
}

/// In order, the messages with a priority number up to `p` come first.
proof fn lemma_rank_splits(s: Seq<ItemView>, p: i32)
    requires
        in_order(s),
    ensures
        rank(s, p) <= s.len(),
        forall|i: int| 0 <= i < s.len() ==> (s[i].priority <= p <==> i < rank(s, p)),
    decreases s.len(),
{
    if s.len() > 0 {
        let t = s.drop_last();
        lemma_rank_splits(t, p);
        assert forall|i: int| 0 <= i < s.len() implies (s[i].priority <= p <==> i < rank(s, p)) by {
            if i < t.len() {
                assert(t[i] == s[i]);
                assert(s[i].leaves_before(s.last()));
            } else if s.last().priority <= p {
                if rank(t, p) < t.len() {
                    let j = rank(t, p) as int;
                    assert(t[j].priority > p);
                    assert(s[j].leaves_before(s[s.len() - 1]));
                }
            }
        }
    }
}

/// The order holds after a message that is younger than all others came.
proof fn lemma_with_item_in_order(s: Seq<ItemView>, item: ItemView)
    requires
        in_order(s),
        forall|i: int| 0 <= i < s.len() ==> s[i].sequence < item.sequence,
    ensures
        in_order(with_item(s, item)),
{
    lemma_rank_splits(s, item.priority);
    let k = rank(s, item.priority) as int;
    let t = with_item(s, item);
    assert forall|i: int, j: int| 0 <= i < j < t.len() implies t[i].leaves_before(t[j]) by {
        if j < k {
            assert(t[i] == s[i] && t[j] == s[j]);
        } else if j == k {
            assert(t[i] == s[i]);
        } else if i < k {
            assert(t[i] == s[i] && t[j] == s[j - 1]);
        } else if i == k {
            assert(t[j] == s[j - 1]);
            assert(s[j - 1].priority > item.priority);
        } else {
            assert(t[i] == s[i - 1] && t[j] == s[j - 1]);
        }
    }
}

impl SerialQueue {
    /// The messages that wait, in the order in which they leave.
    pub open spec fn waiting(self) -> Seq<ItemView> {
        item_views(self.items@)
    }

    /// The messages stand in order, none is younger than the last that came, none goes past the
    /// queue, and there are no more than fit.
    pub open spec fn well_formed(self) -> bool {
        &&& in_order(self.waiting())
        &&& self.waiting().len() <= self.max_queue_size
        &&& forall|i: int|
            0 <= i < self.waiting().len() ==> {
                &&& self.waiting()[i].sequence <= self.sequence_counter
                &&& self.waiting()[i].priority >= 0
            }
    }

    /// The queue runs, and nothing has happened yet.
    pub open spec fn just_started(self, max_queue_size: usize) -> bool {
        &&& self.waiting().len() == 0
        &&& self.sequence_counter == 0
        &&& self.running
        &&& !self.device_disconnected
        &&& self.max_queue_size == max_queue_size
        &&& self.consecutive_errors == 0
        &&& self.stats == (QueueStats {
            peak_depth: 0,
            write_total_ns: 0,
            write_max_ns: 0,
            writes: 0,
        })
    }

    /// A queue that does not run yet.
    pub fn new(max_queue_size: usize) -> (r: SerialQueue)
        ensures
            r.well_formed(),
            r.waiting().len() == 0,
            r.sequence_counter == 0,
            !r.running,
            !r.device_disconnected,
            r.max_queue_size == max_queue_size,
            r.consecutive_errors == 0,
            r.stats == (QueueStats {
                peak_depth: 0,
                write_total_ns: 0,
                write_max_ns: 0,
                writes: 0,
            }),
    {
        SerialQueue {
            items: Vec::new(),
            sequence_counter: 0,
            running: false,
            device_disconnected: false,
            max_queue_size,
            consecutive_errors: 0,
            stats: QueueStats { peak_depth: 0, write_total_ns: 0, write_max_ns: 0, writes: 0 },
        }
    }

    /// Lets the queue run. Returns whether a worker is to be started: not where it runs already.
    pub fn start(&mut self) -> (r: bool)
        requires
            old(self).well_formed(),
        ensures
            r == !old(self).running,
            *final(self) == if r {
                SerialQueue { running: true, device_disconnected: false, ..*old(self) }
            } else {
                *old(self)
            },
            final(self).well_formed(),
    {
        if self.running {
            return false;
        }
        self.running = true;
        self.device_disconnected = false;
        true
    }

    /// Stops the queue. Returns whether the worker is to be waited for: not where none runs.
    pub fn stop(&mut self) -> (r: bool)
        requires
            old(self).well_formed(),
        ensures
            r == old(self).running,
            *final(self) == if r {
                SerialQueue { running: false, device_disconnected: true, ..*old(self) }
            } else {
                *old(self)
            },
            final(self).well_formed(),
    {
        if !self.running {
            return false;
        }
        self.running = false;
        self.device_disconnected = true;
        true
    }

    /// The message that a new one becomes.
    pub open spec fn new_item(self, data: Seq<u8>, priority: i32) -> ItemView {
        ItemView { priority, sequence: (self.sequence_counter + 1) as u64, data }
    }

    /// The queue after a message came that waits.
    pub open spec fn takes(self, after: SerialQueue, data: Seq<u8>, priority: i32) -> bool {
        &&& after.waiting() == with_item(self.waiting(), self.new_item(data, priority))
        &&& after.sequence_counter == self.sequence_counter + 1
        &&& after.running == self.running
        &&& after.device_disconnected == self.device_disconnected
        &&& after.max_queue_size == self.max_queue_size
        &&& after.consecutive_errors == self.consecutive_errors
        &&& after.stats == (QueueStats {
            peak_depth: if after.waiting().len() > self.stats.peak_depth {
                after.waiting().len() as usize
            } else {
                self.stats.peak_depth
            },
            ..self.stats
        })
    }

    /// What a message leads to.
    pub open spec fn accepts(
        self,
        after: SerialQueue,
        data: Seq<u8>,
        priority: i32,
        r: Sent,
    ) -> bool {
        if !self.running {
            r is NotRunning && after == self
        } else if priority < 0 {
            after == self && if self.device_disconnected {
                r is Disconnected
            } else {
                r matches Sent::WriteNow(d) && d@ == data
            }
        } else if self.waiting().len() >= self.max_queue_size {
            r is Full && after == self
        } else {
            r is Queued && self.takes(after, data, priority)
        }
    }

    /// Takes a message. One of negative priority is to be written at once, unless the device is
    /// gone. Any other waits, if there is room for it.
    pub fn send(&mut self, data: Vec<u8>, priority: i32) -> (r: Sent)
        requires
            old(self).well_formed(),
            old(self).sequence_counter < u64::MAX,
        ensures
            old(self).accepts(*final(self), data@, priority, r),
            final(self).well_formed(),
    {
        if !self.running {
            return Sent::NotRunning;
        }
        if priority < 0 {
            if self.device_disconnected {
                return Sent::Disconnected;
            }
            return Sent::WriteNow(data);
        }
        if self.items.len() >= self.max_queue_size {
            return Sent::Full;
        }
        let ghost w = self.waiting();
        let n: usize = self.items.len();
        let mut k: usize = 0;
        proof {
            lemma_rank_splits(w, priority);
        }
        while k < n && self.items[k].priority <= priority
            invariant
                w == item_views(self.items@),
                n == self.items@.len(),
                k <= n,
                rank(w, priority) <= w.len(),
                forall|i: int| 0 <= i < w.len() ==> (w[i].priority <= priority <==> i < rank(
                    w,
                    priority,
                )),
                k <= rank(w, priority),
            decreases n - k,
        {
            assert(w[k as int].priority <= priority);
            k = k + 1;
        }
        assert(k == rank(w, priority)) by {
            if k < n {
                assert(w[k as int].priority > priority);
            }
        }
        self.sequence_counter = self.sequence_counter + 1;
        let item = QueueItem { priority, sequence: self.sequence_counter, data };
        let ghost v = item@;
        self.items.insert(k, item);
        assert(self.waiting() =~= with_item(w, v));
        proof {
            lemma_with_item_in_order(w, v);
            let t = self.waiting();
            assert forall|i: int| 0 <= i < t.len() implies t[i].sequence <= self.sequence_counter
                && t[i].priority >= 0 by {
                if i < k {
                    assert(t[i] == w[i]);
                } else if i > k {
                    assert(t[i] == w[i - 1]);
                }
            }
        }
        let depth: usize = self.items.len();
        if depth > self.stats.peak_depth {
            self.stats.peak_depth = depth;
        }
        Sent::Queued
    }

    /// Takes a message in JSON, which a line feed ends.
    pub fn send_json(&mut self, json_str: &str, priority: i32) -> (r: Sent)
        requires
            old(self).well_formed(),
            old(self).sequence_counter < u64::MAX,
        ensures
            old(self).accepts(*final(self), json_line(json_str@), priority, r),
            final(self).well_formed(),
    {
        let bytes = json_str.as_bytes();
        let mut buf: Vec<u8> = Vec::new();
        push_all(&mut buf, bytes);
        buf.push(10);
        assert(buf@ =~= json_line(json_str@));
        self.send(buf, priority)
    }

    /// Takes a spectrum as a binary frame.
    pub fn send_binary_spectrum(
        &mut self,
        raw_data: &[u8],
        header_byte: u8,
        sync_byte: u8,
        priority: i32,
    ) -> (r: Sent)
        requires
            old(self).well_formed(),
            old(self).sequence_counter < u64::MAX,
        ensures
            old(self).accepts(
                *final(self),
                binary_frame(sync_byte, header_byte, raw_data@),
                priority,
                r,
            ),
            final(self).well_formed(),
    {
        let mut frame: Vec<u8> = Vec::new();
        frame.push(sync_byte);
        frame.push(header_byte);
        push_all(&mut frame, raw_data);
        assert(frame@ =~= binary_frame(sync_byte, header_byte, raw_data@));
        self.send(frame, priority)
    }

    /// What the worker is to do next. A message that it is to write leaves the queue.
    pub fn next_item(&mut self) -> (r: WorkerStep)
        requires
            old(self).well_formed(),
        ensures
            final(self).well_formed(),
            if !old(self).running || old(self).device_disconnected {
                r is Exit && *final(self) == *old(self)
            } else if old(self).waiting().len() == 0 {
                r == WorkerStep::Wait(WORKER_WAIT_MS) && *final(self) == *old(self)
            } else {
                &&& r matches WorkerStep::Write(d)
                &&& d@ == old(self).waiting()[0].data
                &&& final(self).waiting() == old(self).waiting().skip(1)
                &&& final(self).sequence_counter == old(self).sequence_counter
                &&& final(self).running == old(self).running
                &&& final(self).device_disconnected == old(self).device_disconnected
                &&& final(self).max_queue_size == old(self).max_queue_size
                &&& final(self).consecutive_errors == old(self).consecutive_errors
                &&& final(self).stats == old(self).stats
            },
    {
        if !self.running || self.device_disconnected {
            return WorkerStep::Exit;
        }
        if self.items.len() == 0 {
            return WorkerStep::Wait(WORKER_WAIT_MS);
        }
        let ghost w = self.waiting();
        let item = self.items.remove(0);
        assert(self.waiting() =~= w.skip(1));
        assert(in_order(self.waiting())) by {
            let t = w.skip(1);
            assert forall|i: int, j: int| 0 <= i < j < t.len() implies t[i].leaves_before(t[j]) by {
                assert(t[i] == w[i + 1] && t[j] == w[j + 1]);
            }
        }
        WorkerStep::Write(item.data)
    }

    /// Whether the device is there to be written to.
    pub fn can_write(&self) -> (r: bool)
        ensures
            r == self.writable(),
    {
        self.running && !self.device_disconnected
    }

    /// The queue after a write that took `took_ns`. A write that succeeds ends a row of failures;
    /// three failures in a row mean that the device is gone.
    pub open spec fn after_write(self, ok: bool, took_ns: u64) -> SerialQueue {
        if ok {
            SerialQueue {
                consecutive_errors: 0,
                stats: QueueStats {
                    write_total_ns: (self.stats.write_total_ns + took_ns) as u64,
                    write_max_ns: if took_ns > self.stats.write_max_ns {
                        took_ns
                    } else {
                        self.stats.write_max_ns
                    },
                    writes: (self.stats.writes + 1) as usize,
                    ..self.stats
                },
                ..self
            }
        } else {
            SerialQueue {
                consecutive_errors: (self.consecutive_errors + 1) as u32,
                device_disconnected: self.device_disconnected || self.consecutive_errors + 1
                    >= MAX_CONSECUTIVE_ERRORS,
                ..self
            }
        }
    }

    /// The device is there to be written to.
    pub open spec fn writable(self) -> bool {
        self.running && !self.device_disconnected
    }

    /// The queue after writes that go so, one after the other. Nothing is written to a device that
    /// is not there.
    pub open spec fn after_writes(self, writes: Seq<(bool, u64)>) -> SerialQueue
        decreases writes.len(),
    {
        if writes.len() == 0 {
            self
        } else {
            let before = self.after_writes(writes.drop_last());
            if before.writable() {
                before.after_write(writes.last().0, writes.last().1)
            } else {
                before
            }
        }
    }

    /// Takes note of a write that took `took_ns`. Three failures in a row mean that the device is
    /// gone.
    pub fn write_to_device(&mut self, ok: bool, took_ns: u64) -> (r: Written)
        requires
            old(self).well_formed(),
            old(self).consecutive_errors < u32::MAX,
            old(self).stats.write_total_ns + took_ns <= u64::MAX,
            old(self).stats.writes < usize::MAX,
        ensures
            final(self).well_formed(),
            r.ok == ok,
            *final(self) == old(self).after_write(ok, took_ns),
            r.lost == (final(self).device_disconnected && !old(self).device_disconnected),
    {
        if !ok {
            self.consecutive_errors = self.consecutive_errors + 1;
            let gone = self.consecutive_errors >= MAX_CONSECUTIVE_ERRORS;
            let lost = gone && !self.device_disconnected;
            if gone {
                self.device_disconnected = true;
            }
            return Written { ok: false, lost };
        }
        self.consecutive_errors = 0;
        self.stats.write_total_ns = self.stats.write_total_ns + took_ns;
        if took_ns > self.stats.write_max_ns {
            self.stats.write_max_ns = took_ns;
        }
        self.stats.writes = self.stats.writes + 1;
        Written { ok: true, lost: false }
    }

    /// The figures of the queue. They start afresh.
    pub fn stats(&mut self) -> (r: QueueStats)
        requires
            old(self).well_formed(),
        ensures
            r == old(self).stats,
            *final(self) == (SerialQueue {
                stats: QueueStats {
                    peak_depth: 0,
                    write_total_ns: 0,
                    write_max_ns: 0,
                    writes: 0,
                },
                ..*old(self)
            }),
            final(self).well_formed(),
    {
        let r = self.stats;
        self.stats = QueueStats { peak_depth: 0, write_total_ns: 0, write_max_ns: 0, writes: 0 };
        r
    }
}

/// The bytes of a message in JSON, with the line feed that ends it.
pub open spec fn json_line(json: Seq<char>) -> Seq<u8> {
    encode_utf8(json).push(10)
}

/// A binary frame: a byte to begin it, the header, and the bars.
pub open spec fn binary_frame(sync: u8, header: u8, bars: Seq<u8>) -> Seq<u8> {
    seq![sync, header] + bars
}

/// Appends the bytes.
fn push_all(out: &mut Vec<u8>, bytes: &[u8])
    ensures
        final(out)@ == old(out)@ + bytes@,
{
    let mut i: usize = 0;
    while i < bytes.len()
        invariant
            i <= bytes@.len(),
            out@ =~= old(out)@ + bytes@.take(i as int),
        decreases bytes.len() - i,
    {
        out.push(bytes[i]);
        i = i + 1;
    }
    assert(bytes@.take(i as int) =~= bytes@);
}

/// The message that leaves next has the lowest priority number of all that wait, and no older
/// message of that priority waits.
pub proof fn law_next_is_first(q: SerialQueue, i: int)
    requires
        q.well_formed(),
        0 < i < q.waiting().len(),
    ensures
        q.waiting()[0].priority <= q.waiting()[i].priority,
        q.waiting()[0].priority == q.waiting()[i].priority ==> q.waiting()[0].sequence
            < q.waiting()[i].sequence,
{
    assert(q.waiting()[0].leaves_before(q.waiting()[i]));
}

/// A new message is put behind every message of its own priority and of lower numbers, and before
/// all others, and those keep their order.
pub proof fn law_new_message_place(q: SerialQueue, item: ItemView)
    requires
        q.well_formed(),
        item.sequence > q.sequence_counter,
    ensures
        ({
            let k = rank(q.waiting(), item.priority) as int;
            let t = with_item(q.waiting(), item);
            &&& t.len() == q.waiting().len() + 1
            &&& t[k] == item
            &&& forall|i: int| 0 <= i < k ==> t[i] == q.waiting()[i] && t[i].priority <= item.priority
            &&& forall|i: int| k < i < t.len() ==> t[i] == q.waiting()[i - 1] && t[i].priority
                > item.priority
        }),
{
    lemma_rank_splits(q.waiting(), item.priority);
}

/// No message is lost and none is doubled: after a message came, what waits is what waited, and
/// the message.
pub proof fn law_queue_keeps_messages(s: Seq<ItemView>, item: ItemView)
    ensures
        with_item(s, item).to_multiset() == s.to_multiset().insert(item),
{
    lemma_rank_bounds(s, item.priority);
    let k = rank(s, item.priority) as int;
    assert(with_item(s, item) =~= s.insert(k, item));
    vstd::seq_lib::to_multiset_insert(s, k, item);
}

/// The order of two messages does not depend on what came between them: of two messages sent one
/// after the other, the first leaves first, unless the second has a lower priority number.
pub proof fn law_first_come_first_served(a: ItemView, b: ItemView)
    requires
        a.sequence < b.sequence,
    ensures
        a.leaves_before(b) <==> a.priority <= b.priority,
        b.leaves_before(a) <==> b.priority < a.priority,
{
}

/// The number of failures at the end of a row of writes.
pub open spec fn failures_at_end(writes: Seq<(bool, u64)>) -> nat
    decreases writes.len(),
{
    if writes.len() == 0 || writes.last().0 {
        0
    } else {
        failures_at_end(writes.drop_last()) + 1
    }
}

/// Three writes in a row have failed at the place `k`.
pub open spec fn three_failed(writes: Seq<(bool, u64)>, k: int) -> bool {
    0 <= k && k + 3 <= writes.len() && !writes[k].0 && !writes[k + 1].0 && !writes[k + 2].0
}

proof fn lemma_failures_at_end(writes: Seq<(bool, u64)>)
    ensures
        failures_at_end(writes) <= writes.len(),
        forall|i: int|
            writes.len() - failures_at_end(writes) <= i < writes.len() ==> !(#[trigger] writes[i]).0,
        failures_at_end(writes) < writes.len() ==> writes[writes.len() - failures_at_end(writes)
            - 1].0,
    decreases writes.len(),
{
    if writes.len() > 0 && !writes.last().0 {
        let t = writes.drop_last();
        lemma_failures_at_end(t);
        assert forall|i: int|
            writes.len() - failures_at_end(writes) <= i < writes.len() implies !(
        #[trigger] writes[i]).0 by {
            if i < t.len() {
                assert(t[i] == writes[i]);
            }
        }
        if failures_at_end(writes) < writes.len() {
            assert(t[t.len() - failures_at_end(t) - 1] == writes[writes.len() - failures_at_end(
                writes,
            ) - 1]);
        }
    }
}

/// The device is gone exactly if three writes in a row have failed, and then it is not written to
/// any more. As long as it is there, the failures since the last write that succeeded count.
pub proof fn law_three_failures(q: SerialQueue, writes: Seq<(bool, u64)>)
    requires
        q.running,
        !q.device_disconnected,
        q.consecutive_errors == 0,
    ensures
        ({
            let after = q.after_writes(writes);
            &&& after.running
            &&& after.device_disconnected <==> exists|k: int| three_failed(writes, k)
            &&& !after.device_disconnected ==> after.consecutive_errors == failures_at_end(writes)
            &&& !after.device_disconnected ==> failures_at_end(writes) < MAX_CONSECUTIVE_ERRORS
            &&& after.device_disconnected ==> forall|more: (bool, u64)| #[trigger]
                q.after_writes(writes.push(more)) == after
        }),
    decreases writes.len(),
{
    let after = q.after_writes(writes);
    if writes.len() == 0 {
        assert(!exists|k: int| three_failed(writes, k));
    } else {
        let t = writes.drop_last();
        let before = q.after_writes(t);
        law_three_failures(q, t);
        lemma_failures_at_end(t);
        let n = writes.len() as int;
        if before.device_disconnected {
            let k = choose|k: int| three_failed(t, k);
            assert(t[k] == writes[k] && t[k + 1] == writes[k + 1] && t[k + 2] == writes[k + 2]);
            assert(three_failed(writes, k));
        } else {
            if after.device_disconnected {
                assert(failures_at_end(t) == 2);
                assert(!t[n - 3].0 && !t[n - 2].0);
                assert(t[n - 3] == writes[n - 3] && t[n - 2] == writes[n - 2]);
                assert(three_failed(writes, n - 3));
            } else if exists|k: int| three_failed(writes, k) {
                let k = choose|k: int| three_failed(writes, k);
                if k + 3 < n {
                    assert(t[k] == writes[k] && t[k + 1] == writes[k + 1] && t[k + 2] == writes[k
                        + 2]);
                    assert(three_failed(t, k));
                } else {
                    assert(t[n - 3] == writes[n - 3] && t[n - 2] == writes[n - 2]);
                    if failures_at_end(t) < 2 {
                        assert(t[t.len() - failures_at_end(t) - 1].0);
                    }
                }
            }
        }
    }
    if after.device_disconnected {
        assert forall|more: (bool, u64)| #[trigger] q.after_writes(writes.push(more)) == after by {
            assert(writes.push(more).drop_last() =~= writes);
        }
    }
}

} // verus!
