//! The state of the machine, and the bridge that hands it on.
use crate::cava_bridge::STATS_INTERVAL_NS;
use crate::config_manager::SysinfoConfig;
use crate::json::{envelope, object_text, quoted, Members};
use crate::pieces::{
    after_prefix, lines, split_lines, split_words, starts_with, trim, trimmed, words,
};
use crate::reconnection::{elapsed, elapsed_ns};
use crate::text::{
    dec_int, dec_int_text, int_within, opt_view, read_i32, read_i64, same_text, views,
};
use vstd::prelude::*;
use vstd::string::*;

verus! {

/// The quotient, rounded towards 0.
pub open spec fn quotient(a: int, b: int) -> int {
    let x = if a < 0 {
        -a
    } else {
        a
    };
    let y = if b < 0 {
        -b
    } else {
        b
    };
    if (a < 0) == (b < 0) {
        x / y
    } else {
        -(x / y)
    }
}

/// A number of the type `i64`.
pub open spec fn is_i64(n: int) -> bool {
    i64::MIN <= n <= i64::MAX
}

proof fn lemma_quotient(n: int, d: int)
    requires
        n >= 0,
        d != 0,
    ensures
        -n <= n / d <= n,
        d < 0 ==> n / d == -(n / (-d)),
{
    if d > 0 {
        assert(0 <= n / d <= n) by (nonlinear_arith)
            requires
                n >= 0,
                d > 0,
        ;
    } else {
        let e = -d;
        assert(0 <= n / e <= n) by (nonlinear_arith)
            requires
                n >= 0,
                e > 0,
        ;
        assert(n / d == -(n / e)) by (nonlinear_arith)
            requires
                n >= 0,
                e > 0,
                d == -e,
        ;
    }
}

fn share(part: i64, whole: i64) -> (r: i32)
    requires
        whole != 0,
        is_i64(100 * part),
    ensures
        r == quotient(100 * part, whole as int) as i32,
{
    let a: i64 = 100 * part;
    proof {
        let n = if a < 0 {
            -(a as int)
        } else {
            a as int
        };
        lemma_quotient(n, whole as int);
    }
    let q: i64 = a / whole;
    q as i32
}

// ---------------------------------------------------------------------------
// The processor
// ---------------------------------------------------------------------------

/// How long the processor did what, in ticks.
#[derive(Debug, Clone, Copy, PartialEq, Eq, Structural)]
pub struct CpuCounters {
    pub user: i64,
    pub nice: i64,
    pub system: i64,
    pub idle: i64,
    pub iowait: i64,
    pub irq: i64,
    pub softirq: i64,
}

/// The words 1 to 7 of a line are numbers.
pub open spec fn holds_counters(w: Seq<Seq<char>>) -> bool {
    w.len() >= 8 && forall|i: int|
        1 <= i < 8 ==> int_within(#[trigger] w[i], i64::MIN as int, i64::MAX as int) is Some
}

/// The number of a word.
pub open spec fn counter(w: Seq<char>) -> i64 {
    int_within(w, i64::MIN as int, i64::MAX as int)->0 as i64
}

/// The counters on the first line of a text: its second word and the six that follow.
pub open spec fn counters_of(text: Seq<char>) -> Option<CpuCounters> {
    if lines(text).len() == 0 {
        None
    } else {
        let w = words(lines(text)[0]);
        if holds_counters(w) {
            Some(
                CpuCounters {
                    user: counter(w[1]),
                    nice: counter(w[2]),
                    system: counter(w[3]),
                    idle: counter(w[4]),
                    iowait: counter(w[5]),
                    irq: counter(w[6]),
                    softirq: counter(w[7]),
                },
            )
        } else {
            None
        }
    }
}

/// Reads the counters of the processor.
pub fn read_counters(text: &str) -> (r: Option<CpuCounters>)
    ensures
        r == counters_of(text@),
{
    let list = split_lines(text);
    if list.len() == 0 {
        return None;
    }
    assert(views(list@)[0] == list@[0]@);
    let w = split_words(list[0].as_str());
    let ghost vw = views(w@);
    if w.len() < 8 {
        return None;
    }
    let mut nums: Vec<i64> = Vec::new();
    let mut i: usize = 1;
    while i < 8
        invariant
            1 <= i <= 8,
            w@.len() >= 8,
            vw == views(w@),
            vw == words(lines(text@)[0]),
            lines(text@).len() > 0,
            nums@.len() == i - 1,
            forall|k: int|
                1 <= k < i ==> int_within(#[trigger] vw[k], i64::MIN as int, i64::MAX as int)
                    is Some,
            forall|k: int| 1 <= k < i ==> nums@[k - 1] == counter(#[trigger] vw[k]),
        decreases 8 - i,
    {
        assert(vw[i as int] == w@[i as int]@);
        match read_i64(w[i].as_str()) {
            Some(n) => {
                nums.push(n);
            },
            None => {
                return None;
            },
        }
        i = i + 1;
    }
    assert(nums@[0] == counter(vw[1]) && nums@[1] == counter(vw[2]) && nums@[2] == counter(vw[3])
        && nums@[3] == counter(vw[4]) && nums@[4] == counter(vw[5]) && nums@[5] == counter(vw[6])
        && nums@[6] == counter(vw[7]));
    Some(
        CpuCounters {
            user: nums[0],
            nice: nums[1],
            system: nums[2],
            idle: nums[3],
            iowait: nums[4],
            irq: nums[5],
            softirq: nums[6],
        },
    )
}

impl CpuCounters {
    /// The ticks since `prev` in which the processor was busy.
    pub open spec fn busy_since(self, prev: CpuCounters) -> int {
        (self.user - prev.user) + (self.nice - prev.nice) + (self.system - prev.system) + (self.irq
            - prev.irq) + (self.softirq - prev.softirq)
    }

    /// The ticks since `prev`.
    pub open spec fn total_since(self, prev: CpuCounters) -> int {
        self.busy_since(prev) + (self.idle - prev.idle) + (self.iowait - prev.iowait)
    }

    /// No counter has shrunk since `prev`.
    pub open spec fn grown_from(self, prev: CpuCounters) -> bool {
        &&& self.user >= prev.user
        &&& self.nice >= prev.nice
        &&& self.system >= prev.system
        &&& self.idle >= prev.idle
        &&& self.iowait >= prev.iowait
        &&& self.irq >= prev.irq
        &&& self.softirq >= prev.softirq
    }

    /// The counters differ by so little that the load can be computed.
    pub open spec fn comparable(self, prev: CpuCounters) -> bool {
        let d1 = self.user - prev.user;
        let d2 = self.nice - prev.nice;
        let d3 = self.system - prev.system;
        let d4 = self.irq - prev.irq;
        let d5 = self.softirq - prev.softirq;
        let d6 = self.idle - prev.idle;
        let d7 = self.iowait - prev.iowait;
        &&& is_i64(d1) && is_i64(d2) && is_i64(d3) && is_i64(d4) && is_i64(d5) && is_i64(d6)
            && is_i64(d7)
        &&& is_i64(d1 + d2)
        &&& is_i64(d1 + d2 + d3)
        &&& is_i64(d1 + d2 + d3 + d4)
        &&& is_i64(d1 + d2 + d3 + d4 + d5)
        &&& is_i64(d1 + d2 + d3 + d4 + d5 + d6)
        &&& is_i64(d1 + d2 + d3 + d4 + d5 + d6 + d7)
        &&& is_i64(100 * (d1 + d2 + d3 + d4 + d5))
    }

    /// The load since `prev`, in percent.
    pub open spec fn load_since(self, prev: CpuCounters) -> i32 {
        if self.total_since(prev) == 0 {
            0
        } else {
            quotient(100 * self.busy_since(prev), self.total_since(prev)) as i32
        }
    }
}

/// What was last seen of the processor.
#[derive(Debug, Clone, Copy, PartialEq, Eq, Structural)]
pub struct SysinfoCollector {
    pub cpu_prev: Option<CpuCounters>,
}

impl SysinfoCollector {
    /// Nothing was seen yet.
    pub fn new() -> (r: SysinfoCollector)
        ensures
            r.cpu_prev is None,
    {
        SysinfoCollector { cpu_prev: None }
    }

    /// The load can be computed from these counters.
    pub open spec fn can_take(self, now: Option<CpuCounters>) -> bool {
        match (self.cpu_prev, now) {
            (Some(prev), Some(now)) => now.comparable(prev),
            _ => true,
        }
    }

    /// What was last seen after the counters were read, or could not be.
    pub open spec fn after_look(self, now: Option<CpuCounters>) -> SysinfoCollector {
        match now {
            Some(n) => SysinfoCollector { cpu_prev: Some(n) },
            None => self,
        }
    }

    /// The load in percent since the counters were last read, if they were read before and now.
    pub open spec fn load(self, now: Option<CpuCounters>) -> Option<i32> {
        match (self.cpu_prev, now) {
            (Some(prev), Some(n)) => Some(n.load_since(prev)),
            _ => None,
        }
    }

    /// Whether the load can be computed from these counters.
    pub fn takes(&self, now: Option<CpuCounters>) -> (r: bool)
        ensures
            r == self.can_take(now),
    {
        match (self.cpu_prev, now) {
            (Some(prev), Some(now)) => {
                let d1: i128 = now.user as i128 - prev.user as i128;
                let d2: i128 = now.nice as i128 - prev.nice as i128;
                let d3: i128 = now.system as i128 - prev.system as i128;
                let d4: i128 = now.irq as i128 - prev.irq as i128;
                let d5: i128 = now.softirq as i128 - prev.softirq as i128;
                let d6: i128 = now.idle as i128 - prev.idle as i128;
                let d7: i128 = now.iowait as i128 - prev.iowait as i128;
                in_i64(d1) && in_i64(d2) && in_i64(d3) && in_i64(d4) && in_i64(d5) && in_i64(d6)
                    && in_i64(d7) && in_i64(d1 + d2) && in_i64(d1 + d2 + d3) && in_i64(
                    d1 + d2 + d3 + d4,
                ) && in_i64(d1 + d2 + d3 + d4 + d5) && in_i64(d1 + d2 + d3 + d4 + d5 + d6)
                    && in_i64(d1 + d2 + d3 + d4 + d5 + d6 + d7) && in_i64(
                    100 * (d1 + d2 + d3 + d4 + d5),
                )
            },
            _ => true,
        }
    }

    /// The load in percent since the counters were last read; the first time there is none. Where
    /// the counters could not be read, what was last seen stands.
    pub fn collect_cpu(&mut self, now: Option<CpuCounters>) -> (r: Option<i32>)
        requires
            old(self).can_take(now),
        ensures
            r == old(self).load(now),
            *final(self) == old(self).after_look(now),
    {
        match now {
            None => None,
            Some(n) => {
                let before = self.cpu_prev;
                self.cpu_prev = Some(n);
                match before {
                    None => None,
                    Some(prev) => {
                        let d_user: i64 = n.user - prev.user;
                        let d_nice: i64 = n.nice - prev.nice;
                        let d_system: i64 = n.system - prev.system;
                        let d_idle: i64 = n.idle - prev.idle;
                        let d_iowait: i64 = n.iowait - prev.iowait;
                        let d_irq: i64 = n.irq - prev.irq;
                        let d_softirq: i64 = n.softirq - prev.softirq;
                        let busy: i64 = d_user + d_nice + d_system + d_irq + d_softirq;
                        let total: i64 = busy + d_idle + d_iowait;
                        if total == 0 {
                            Some(0)
                        } else {
                            Some(share(busy, total))
                        }
                    },
                }
            },
        }
    }

    /// Takes a first look at the processor.
    pub fn warmup(&mut self, now: Option<CpuCounters>)
        requires
            old(self).can_take(now),
        ensures
            *final(self) == old(self).after_look(now),
    {
        let _ = self.collect_cpu(now);
    }
}

fn in_i64(n: i128) -> (r: bool)
    ensures
        r == is_i64(n as int),
{
    i64::MIN as i128 <= n && n <= i64::MAX as i128
}

/// The load is a share: with counters that only grow, it lies between 0 and 100.
pub proof fn law_load_is_a_share(prev: CpuCounters, now: CpuCounters)
    requires
        now.grown_from(prev),
    ensures
        0 <= now.load_since(prev) <= 100,
{
    let busy = now.busy_since(prev);
    let total = now.total_since(prev);
    if total != 0 {
        lemma_share(busy, total);
    }
}

/// The first look gives no load; after it, every look at counters that can be read gives one. With
/// counters that only grow it lies between 0 and 100.
pub proof fn law_warmup(first: CpuCounters, second: CpuCounters)
    ensures
        ({
            let cold = SysinfoCollector { cpu_prev: None };
            let warm = cold.after_look(Some(first));
            &&& cold.load(Some(first)) is None
            &&& warm.load(Some(second)) == Some(second.load_since(first))
            &&& forall|between: Option<CpuCounters>, later: CpuCounters| #[trigger]
                warm.after_look(between).load(Some(later)) is Some
            &&& second.grown_from(first) ==> 0 <= warm.load(Some(second))->0 <= 100
        }),
{
    if second.grown_from(first) {
        law_load_is_a_share(first, second);
    }
}

proof fn lemma_share(part: int, whole: int)
    requires
        0 <= part <= whole,
        0 < whole,
    ensures
        0 <= quotient(100 * part, whole) <= 100,
{
    let a = 100 * part;
    assert(0 <= a / whole <= 100) by (nonlinear_arith)
        requires
            a == 100 * part,
            0 <= part <= whole,
            0 < whole,
    ;
}

// ---------------------------------------------------------------------------
// Memory, disk, clock
// ---------------------------------------------------------------------------

/// The memory of the machine, and how much of it is free.
#[derive(Debug, Clone, Copy, PartialEq, Eq, Structural)]
pub struct Memory {
    pub total: i64,
    pub available: i64,
}

/// The number that begins what follows a label.
pub open spec fn labelled(rest: Seq<char>) -> Option<int> {
    if words(rest).len() == 0 {
        None
    } else {
        int_within(words(rest)[0], i64::MIN as int, i64::MAX as int)
    }
}

/// What a line tells of the memory: nothing, if its number cannot be read.
pub open spec fn memory_with(m: Memory, line: Seq<char>) -> Option<Memory> {
    if starts_with(line, "MemTotal:"@) {
        match labelled(line.skip("MemTotal:"@.len() as int)) {
            Some(n) => Some(Memory { total: n as i64, ..m }),
            None => None,
        }
    } else if starts_with(line, "MemAvailable:"@) {
        match labelled(line.skip("MemAvailable:"@.len() as int)) {
            Some(n) => Some(Memory { available: n as i64, ..m }),
            None => None,
        }
    } else {
        Some(m)
    }
}

/// What lines tell of the memory, read until both numbers are known.
pub open spec fn memory_after(m: Memory, ls: Seq<Seq<char>>) -> Option<Memory>
    decreases ls.len(),
{
    if ls.len() == 0 {
        Some(m)
    } else {
        match memory_with(m, ls[0]) {
            None => None,
            Some(n) => if n.total > 0 && n.available > 0 {
                Some(n)
            } else {
                memory_after(n, ls.drop_first())
            },
        }
    }
}

/// What a text tells of the memory: nothing, if it does not tell how much there is.
pub open spec fn memory_of(text: Seq<char>) -> Option<Memory> {
    match memory_after(Memory { total: 0, available: 0 }, lines(text)) {
        Some(m) if m.total > 0 => Some(m),
        _ => None,
    }
}

fn read_labelled(rest: &str) -> (r: Option<i64>)
    ensures
        match r {
            Some(n) => labelled(rest@) == Some(n as int),
            None => labelled(rest@) is None,
        },
{
    let w = split_words(rest);
    if w.len() == 0 {
        None
    } else {
        assert(views(w@)[0] == w@[0]@);
        read_i64(w[0].as_str())
    }
}

fn read_memory_line(m: Memory, line: &str) -> (r: Option<Memory>)
    ensures
        r == memory_with(m, line@),
{
    match after_prefix(line, "MemTotal:") {
        Some(rest) => match read_labelled(rest.as_str()) {
            Some(n) => Some(Memory { total: n, available: m.available }),
            None => None,
        },
        None => match after_prefix(line, "MemAvailable:") {
            Some(rest) => match read_labelled(rest.as_str()) {
                Some(n) => Some(Memory { total: m.total, available: n }),
                None => None,
            },
            None => Some(m),
        },
    }
}

/// Reads how much memory there is and how much of it is free.
pub fn read_memory(text: &str) -> (r: Option<Memory>)
    ensures
        r == memory_of(text@),
{
    let list = split_lines(text);
    let ghost ls = views(list@);
    let mut m = Memory { total: 0, available: 0 };
    let n: usize = list.len();
    let mut i: usize = 0;
    assert(ls.skip(0) =~= ls);
    while i < n
        invariant
            n == list@.len(),
            i <= n,
            ls == views(list@),
            ls == lines(text@),
            memory_after(Memory { total: 0, available: 0 }, ls) == memory_after(
                m,
                ls.skip(i as int),
            ),
        decreases n - i,
    {
        proof {
            assert(ls.skip(i as int)[0] == list@[i as int]@);
            assert(ls.skip(i as int).drop_first() =~= ls.skip(i + 1));
        }
        match read_memory_line(m, list[i].as_str()) {
            None => {
                return None;
            },
            Some(next) => {
                m = next;
            },
        }
        if m.total > 0 && m.available > 0 {
            return Some(m);
        }
        i = i + 1;
    }
    assert(ls.skip(i as int).len() == 0);
    if m.total <= 0 {
        None
    } else {
        Some(m)
    }
}

impl Memory {
    /// The share of the memory in use can be computed.
    pub open spec fn has_share(self) -> bool {
        self.total > 0 && is_i64(self.total - self.available) && is_i64(
            100 * (self.total - self.available),
        )
    }

    /// The share of the memory in use, in percent.
    pub open spec fn used_share(self) -> i32 {
        quotient(100 * (self.total - self.available), self.total as int) as i32
    }

    /// Whether the share of the memory in use can be computed.
    pub fn fits(&self) -> (r: bool)
        ensures
            r == self.has_share(),
    {
        let used: i128 = self.total as i128 - self.available as i128;
        self.total > 0 && in_i64(used) && in_i64(100 * used)
    }

    /// The share of the memory in use, in percent.
    pub fn collect_mem(&self) -> (r: i32)
        requires
            self.has_share(),
        ensures
            r == self.used_share(),
            0 <= self.available <= self.total ==> 0 <= r <= 100,
    {
        proof {
            if 0 <= self.available <= self.total {
                lemma_share(self.total - self.available, self.total as int);
            }
        }
        share(self.total - self.available, self.total)
    }
}

/// The share of the disk in use, in percent, by its blocks and those that are free. A disk without
/// blocks has none.
pub open spec fn disk_share(blocks: u64, available: u64) -> Option<i32> {
    if blocks == 0 {
        None
    } else {
        Some(((100 * (blocks - available)) / (blocks as int)) as i32)
    }
}

/// The share of the disk in use, in percent.
pub fn collect_disk(blocks: u64, available: u64) -> (r: Option<i32>)
    requires
        blocks > 0 ==> available <= blocks && 100 * (blocks - available) <= u64::MAX,
    ensures
        r == disk_share(blocks, available),
        r is Some ==> 0 <= r->0 <= 100,
{
    if blocks == 0 {
        return None;
    }
    let used: u64 = blocks - available;
    let q: u64 = 100 * used / blocks;
    proof {
        lemma_share(used as int, blocks as int);
        assert(q as int == (100 * (blocks - available)) / (blocks as int));
    }
    Some(q as i32)
}

/// The frequency of the processor in megahertz, from a text that gives it in kilohertz.
pub open spec fn megahertz(text: Seq<char>) -> Option<i32> {
    match int_within(trim(text), i32::MIN as int, i32::MAX as int) {
        Some(khz) => Some(quotient(khz, 1000) as i32),
        None => None,
    }
}

/// The frequency of the processor in megahertz, from a text that gives it in kilohertz.
pub fn collect_freq(text: &str) -> (r: Option<i32>)
    ensures
        r == megahertz(text@),
{
    let t = trimmed(text);
    match read_i32(t.as_str()) {
        Some(khz) => Some(khz / 1000),
        None => None,
    }
}

/// The temperature in thousandths of a degree, from a text that gives it.
pub fn collect_temp(text: &str) -> (r: Option<i64>)
    ensures
        match int_within(trim(text@), i64::MIN as int, i64::MAX as int) {
            Some(n) => r is Some && r->0 == n,
            None => r is None,
        },
{
    let t = trimmed(text);
    read_i64(t.as_str())
}

/// The first word of a text.
pub fn first_word(text: &str) -> (r: Option<String>)
    ensures
        match r {
            Some(s) => words(text@).len() > 0 && s@ == words(text@)[0],
            None => words(text@).len() == 0,
        },
{
    let mut w = split_words(text);
    if w.len() == 0 {
        None
    } else {
        assert(views(w@)[0] == w@[0]@);
        Some(w.swap_remove(0))
    }
}

// ---------------------------------------------------------------------------
// The address
// ---------------------------------------------------------------------------

/// An address of the machine: the interface that has it, and the address in dotted notation, if
/// it has that form.
#[derive(Debug)]
pub struct Interface {
    pub name: String,
    pub address: Option<String>,
    pub loopback: bool,
}

/// How well an interface serves.
#[derive(Debug, Clone, Copy, PartialEq, Eq, Structural)]
pub enum LinkKind {
    Wired,
    Wireless,
    Other,
}

/// The kind of an interface, by its name.
pub open spec fn link_kind(name: Seq<char>) -> LinkKind {
    if name == "eth0"@ || name == "end0"@ {
        LinkKind::Wired
    } else if name == "wlan0"@ {
        LinkKind::Wireless
    } else {
        LinkKind::Other
    }
}

/// The first address of an interface of the given kind, other than the loopback.
pub open spec fn first_address(list: Seq<Interface>, kind: LinkKind) -> Option<Seq<char>>
    decreases list.len(),
{
    if list.len() == 0 {
        None
    } else {
        match first_address(list.drop_last(), kind) {
            Some(a) => Some(a),
            None => match list.last().address {
                Some(a) if !list.last().loopback && link_kind(list.last().name@) == kind => Some(
                    a@,
                ),
                _ => None,
            },
        }
    }
}

/// The address of the machine: a wired one before a wireless one before any other.
pub open spec fn address_of(list: Seq<Interface>) -> Option<Seq<char>> {
    match first_address(list, LinkKind::Wired) {
        Some(a) => Some(a),
        None => match first_address(list, LinkKind::Wireless) {
            Some(a) => Some(a),
            None => first_address(list, LinkKind::Other),
        },
    }
}

fn kind_of(name: &str) -> (r: LinkKind)
    ensures
        r == link_kind(name@),
{
    if same_text(name, "eth0") || same_text(name, "end0") {
        LinkKind::Wired
    } else if same_text(name, "wlan0") {
        LinkKind::Wireless
    } else {
        LinkKind::Other
    }
}

fn find_address(list: &Vec<Interface>, kind: LinkKind) -> (r: Option<String>)
    ensures
        match r {
            Some(s) => first_address(list@, kind) == Some(s@),
            None => first_address(list@, kind) is None,
        },
{
    let n: usize = list.len();
    let mut i: usize = 0;
    assert(list@.take(0) =~= Seq::<Interface>::empty());
    while i < n
        invariant
            n == list@.len(),
            i <= n,
            first_address(list@.take(i as int), kind) is None,
        decreases n - i,
    {
        proof {
            let t = list@.take(i + 1);
            assert(t.drop_last() =~= list@.take(i as int));
            assert(t.last() == list@[i as int]);
        }
        if !list[i].loopback && kind_of(list[i].name.as_str()) == kind {
            match &list[i].address {
                Some(a) => {
                    let s = a.as_str().to_owned();
                    proof {
                        lemma_first_stays(list@, kind, i + 1);
                    }
                    return Some(s);
                },
                None => {},
            }
        }
        i = i + 1;
    }
    assert(list@.take(i as int) =~= list@);
    None
}

proof fn lemma_first_stays(list: Seq<Interface>, kind: LinkKind, i: int)
    requires
        0 <= i <= list.len(),
        first_address(list.take(i), kind) is Some,
    ensures
        first_address(list, kind) == first_address(list.take(i), kind),
    decreases list.len(),
{
    if i == list.len() {
        assert(list.take(i) =~= list);
    } else {
        assert(list.drop_last().take(i) =~= list.take(i));
        lemma_first_stays(list.drop_last(), kind, i);
    }
}

/// The address of the machine.
pub fn collect_ip(list: &Vec<Interface>) -> (r: Option<String>)
    ensures
        match r {
            Some(s) => address_of(list@) == Some(s@),
            None => address_of(list@) is None,
        },
{
    match find_address(list, LinkKind::Wired) {
        Some(s) => Some(s),
        None => match find_address(list, LinkKind::Wireless) {
            Some(s) => Some(s),
            None => find_address(list, LinkKind::Other),
        },
    }
}

// ---------------------------------------------------------------------------
// The message
// ---------------------------------------------------------------------------

/// What is told of the machine: what could be found out. The temperature is a number in JSON.
#[derive(Debug)]
pub struct SysinfoData {
    pub cpu: Option<i32>,
    pub temp: Option<String>,
    pub mem: Option<i32>,
    pub disk: Option<i32>,
    pub load: Option<String>,
    pub up: Option<i64>,
    pub ip: Option<String>,
    pub freq: Option<i32>,
    pub time: String,
}

/// What is told of the machine, by its view.
pub struct SysinfoView {
    pub cpu: Option<i32>,
    pub temp: Option<Seq<char>>,
    pub mem: Option<i32>,
    pub disk: Option<i32>,
    pub load: Option<Seq<char>>,
    pub up: Option<i64>,
    pub ip: Option<Seq<char>>,
    pub freq: Option<i32>,
    pub time: Seq<char>,
}

impl View for SysinfoData {
    type V = SysinfoView;

    open spec fn view(&self) -> SysinfoView {
        SysinfoView {
            cpu: self.cpu,
            temp: opt_view(self.temp),
            mem: self.mem,
            disk: self.disk,
            load: opt_view(self.load),
            up: self.up,
            ip: opt_view(self.ip),
            freq: self.freq,
            time: self.time@,
        }
    }
}

/// The members with one more, if there is a number for it.
pub open spec fn with_number(
    m: Seq<(Seq<char>, Seq<char>)>,
    name: Seq<char>,
    value: Option<int>,
) -> Seq<(Seq<char>, Seq<char>)> {
    match value {
        Some(n) => m.push((name, dec_int(n))),
        None => m,
    }
}

/// The members with one more, if there is a text for it.
pub open spec fn with_text(
    m: Seq<(Seq<char>, Seq<char>)>,
    name: Seq<char>,
    value: Option<Seq<char>>,
) -> Seq<(Seq<char>, Seq<char>)> {
    match value {
        Some(s) => m.push((name, quoted(s))),
        None => m,
    }
}

/// The members with one more, if there is a value in JSON for it.
pub open spec fn with_raw(
    m: Seq<(Seq<char>, Seq<char>)>,
    name: Seq<char>,
    value: Option<Seq<char>>,
) -> Seq<(Seq<char>, Seq<char>)> {
    match value {
        Some(s) => m.push((name, s)),
        None => m,
    }
}

/// A number of 32 bits, where there is one.
pub open spec fn wide(n: Option<i32>) -> Option<int> {
    match n {
        Some(n) => Some(n as int),
        None => None,
    }
}

/// A number of 64 bits, where there is one.
pub open spec fn wide64(n: Option<i64>) -> Option<int> {
    match n {
        Some(n) => Some(n as int),
        None => None,
    }
}

impl SysinfoView {
    /// The members of the message, in their order.
    pub open spec fn members(self) -> Seq<(Seq<char>, Seq<char>)> {
        let m = with_number(Seq::empty(), "cpu"@, wide(self.cpu));
        let m = with_raw(m, "temp"@, self.temp);
        let m = with_number(m, "mem"@, wide(self.mem));
        let m = with_number(m, "disk"@, wide(self.disk));
        let m = with_text(m, "load"@, self.load);
        let m = with_number(m, "up"@, wide64(self.up));
        let m = with_text(m, "ip"@, self.ip);
        let m = with_number(m, "freq"@, wide(self.freq));
        m.push(("time"@, quoted(self.time)))
    }

    /// The message.
    pub open spec fn message(self) -> Seq<char> {
        envelope("sys"@, object_text(self.members()))
    }
}

/// A member of this name is there.
pub open spec fn has_member(m: Seq<(Seq<char>, Seq<char>)>, name: Seq<char>) -> bool {
    exists|i: int| 0 <= i < m.len() && (#[trigger] m[i]).0 == name
}

proof fn lemma_one_more(m: Seq<(Seq<char>, Seq<char>)>, name: Seq<char>, value: Seq<char>)
    ensures
        forall|x: Seq<char>|
            #[trigger] has_member(m.push((name, value)), x) <==> has_member(m, x) || x == name,
{
    let t = m.push((name, value));
    assert forall|x: Seq<char>| has_member(t, x) <==> has_member(m, x) || x == name by {
        if has_member(m, x) {
            let i = choose|i: int| 0 <= i < m.len() && (#[trigger] m[i]).0 == x;
            assert(t[i].0 == x);
        }
        if x == name {
            assert(t[m.len() as int].0 == x);
        }
        if has_member(t, x) {
            let i = choose|i: int| 0 <= i < t.len() && (#[trigger] t[i]).0 == x;
            if i < m.len() {
                assert(m[i].0 == x);
            }
        }
    }
}

proof fn lemma_maybe_number(m: Seq<(Seq<char>, Seq<char>)>, name: Seq<char>, value: Option<int>)
    ensures
        forall|x: Seq<char>|
            #[trigger] has_member(with_number(m, name, value), x) <==> has_member(m, x) || (value is Some && x
                == name),
{
    if let Some(n) = value {
        lemma_one_more(m, name, dec_int(n));
    }
}

proof fn lemma_maybe_text(
    m: Seq<(Seq<char>, Seq<char>)>,
    name: Seq<char>,
    value: Option<Seq<char>>,
)
    ensures
        forall|x: Seq<char>|
            #[trigger] has_member(with_text(m, name, value), x) <==> has_member(m, x) || (value is Some && x
                == name),
        forall|x: Seq<char>|
            #[trigger] has_member(with_raw(m, name, value), x) <==> has_member(m, x) || (value is Some && x
                == name),
{
    if let Some(s) = value {
        lemma_one_more(m, name, quoted(s));
        lemma_one_more(m, name, s);
    }
}

/// What could be measured is in the message, and what could not is not, by any value. The time of
/// day is always there.
pub proof fn law_what_was_measured_is_told(d: SysinfoView)
    ensures
        ({
            let m = d.members();
            &&& has_member(m, "cpu"@) <==> d.cpu is Some
            &&& has_member(m, "temp"@) <==> d.temp is Some
            &&& has_member(m, "mem"@) <==> d.mem is Some
            &&& has_member(m, "disk"@) <==> d.disk is Some
            &&& has_member(m, "load"@) <==> d.load is Some
            &&& has_member(m, "up"@) <==> d.up is Some
            &&& has_member(m, "ip"@) <==> d.ip is Some
            &&& has_member(m, "freq"@) <==> d.freq is Some
            &&& has_member(m, "time"@)
        }),
{
    reveal_strlit("cpu");
    reveal_strlit("temp");
    reveal_strlit("mem");
    reveal_strlit("disk");
    reveal_strlit("load");
    reveal_strlit("up");
    reveal_strlit("ip");
    reveal_strlit("freq");
    reveal_strlit("time");
    assert("cpu"@.len() == 3 && "cpu"@[0] == 'c' && "mem"@.len() == 3 && "mem"@[0] == 'm');
    assert("up"@.len() == 2 && "up"@[0] == 'u' && "ip"@.len() == 2 && "ip"@[0] == 'i');
    assert("temp"@.len() == 4 && "temp"@[1] == 'e' && "time"@.len() == 4 && "time"@[1] == 'i');
    assert("temp"@[0] == 't' && "time"@[0] == 't');
    assert("disk"@.len() == 4 && "disk"@[0] == 'd' && "load"@.len() == 4 && "load"@[0] == 'l');
    assert("freq"@.len() == 4 && "freq"@[0] == 'f');
    let m0 = Seq::<(Seq<char>, Seq<char>)>::empty();
    let m1 = with_number(m0, "cpu"@, wide(d.cpu));
    let m2 = with_raw(m1, "temp"@, d.temp);
    let m3 = with_number(m2, "mem"@, wide(d.mem));
    let m4 = with_number(m3, "disk"@, wide(d.disk));
    let m5 = with_text(m4, "load"@, d.load);
    let m6 = with_number(m5, "up"@, wide64(d.up));
    let m7 = with_text(m6, "ip"@, d.ip);
    let m8 = with_number(m7, "freq"@, wide(d.freq));
    lemma_maybe_number(m0, "cpu"@, wide(d.cpu));
    lemma_maybe_text(m1, "temp"@, d.temp);
    lemma_maybe_number(m2, "mem"@, wide(d.mem));
    lemma_maybe_number(m3, "disk"@, wide(d.disk));
    lemma_maybe_text(m4, "load"@, d.load);
    lemma_maybe_number(m5, "up"@, wide64(d.up));
    lemma_maybe_text(m6, "ip"@, d.ip);
    lemma_maybe_number(m7, "freq"@, wide(d.freq));
    lemma_one_more(m8, "time"@, quoted(d.time));
    assert(d.members() == m8.push(("time"@, quoted(d.time))));
    assert forall|x: Seq<char>| !has_member(m0, x) by {}
}

impl SysinfoData {
    /// The message.
    pub fn message(&self) -> (r: String)
        ensures
            r@ == self@.message(),
    {
        let m = Members::new();
        assert(m@ =~= Seq::empty());
        let m = put_number(m, "cpu", &self.cpu);
        let m = match &self.temp {
            Some(s) => m.push("temp", s.as_str()),
            None => m,
        };
        let m = put_number(m, "mem", &self.mem);
        let m = put_number(m, "disk", &self.disk);
        let m = put_text(m, "load", &self.load);
        let m = match &self.up {
            Some(n) => {
                let s = dec_int_text(*n);
                m.push("up", s.as_str())
            },
            None => m,
        };
        let m = put_text(m, "ip", &self.ip);
        let m = put_number(m, "freq", &self.freq);
        let m = m.push_text("time", self.time.as_str());
        m.envelope("sys")
    }
}

fn put_number(m: Members, name: &str, value: &Option<i32>) -> (r: Members)
    ensures
        r@ == with_number(m@, name@, wide(*value)),
{
    match value {
        Some(n) => {
            let s = dec_int_text(*n as i64);
            m.push(name, s.as_str())
        },
        None => m,
    }
}

fn put_text(m: Members, name: &str, value: &Option<String>) -> (r: Members)
    ensures
        r@ == with_text(m@, name@, opt_view(*value)),
{
    match value {
        Some(s) => m.push_text(name, s.as_str()),
        None => m,
    }
}

/// What was read of the machine, where it could be read: the texts that the kernel gives of the
/// processor, of the memory and of the frequency, the blocks of the disk and those that are free,
/// and the addresses. The temperature is a number in JSON; it, the load, the time since the start
/// and the time of day, which is always there, come as they are told.
#[derive(Debug)]
pub struct Readings {
    pub stat: Option<String>,
    pub temp: Option<String>,
    pub meminfo: Option<String>,
    pub disk: Option<(u64, u64)>,
    pub load: Option<String>,
    pub up: Option<i64>,
    pub interfaces: Option<Vec<Interface>>,
    pub freq: Option<String>,
    pub time: String,
}

impl Readings {
    /// The counters of the processor.
    pub open spec fn counters(self) -> Option<CpuCounters> {
        match self.stat {
            Some(t) => counters_of(t@),
            None => None,
        }
    }

    /// The memory.
    pub open spec fn memory(self) -> Option<Memory> {
        match self.meminfo {
            Some(t) => memory_of(t@),
            None => None,
        }
    }

    /// Everything can be computed from what was read, after the collector has seen what it has.
    pub open spec fn fit(self, collector: SysinfoCollector) -> bool {
        &&& collector.can_take(self.counters())
        &&& self.memory() matches Some(m) ==> m.has_share()
        &&& self.disk matches Some(d) ==> d.0 > 0 ==> d.1 <= d.0 && 100 * (d.0 - d.1) <= u64::MAX
    }

    /// What is told of the machine.
    pub open spec fn told(self, collector: SysinfoCollector) -> SysinfoView {
        SysinfoView {
            cpu: collector.load(self.counters()),
            temp: opt_view(self.temp),
            mem: match self.memory() {
                Some(m) => Some(m.used_share()),
                None => None,
            },
            disk: match self.disk {
                Some(d) => disk_share(d.0, d.1),
                None => None,
            },
            load: opt_view(self.load),
            up: self.up,
            ip: match self.interfaces {
                Some(list) => address_of(list@),
                None => None,
            },
            freq: match self.freq {
                Some(t) => megahertz(t@),
                None => None,
            },
            time: self.time@,
        }
    }

    fn read_stat(&self) -> (r: Option<CpuCounters>)
        ensures
            r == self.counters(),
    {
        match &self.stat {
            Some(t) => read_counters(t.as_str()),
            None => None,
        }
    }

    fn read_meminfo(&self) -> (r: Option<Memory>)
        ensures
            r == self.memory(),
    {
        match &self.meminfo {
            Some(t) => read_memory(t.as_str()),
            None => None,
        }
    }

    /// Whether everything can be computed from what was read.
    pub fn fits(&self, collector: &SysinfoCollector) -> (r: bool)
        ensures
            r == self.fit(*collector),
    {
        let now = self.read_stat();
        if !collector.takes(now) {
            return false;
        }
        match self.read_meminfo() {
            Some(m) => {
                if !m.fits() {
                    return false;
                }
            },
            None => {},
        }
        match &self.disk {
            Some(d) => {
                let blocks: u64 = d.0;
                let free: u64 = d.1;
                if blocks == 0 {
                    true
                } else if free > blocks {
                    false
                } else {
                    let used: u128 = (blocks - free) as u128;
                    100 * used <= u64::MAX as u128
                }
            },
            None => true,
        }
    }
}

impl SysinfoCollector {
    /// The message that tells of the machine what was read of it.
    pub fn build_json(&mut self, read: Readings) -> (r: String)
        requires
            read.fit(*old(self)),
        ensures
            r@ == read.told(*old(self)).message(),
            *final(self) == old(self).after_look(read.counters()),
    {
        let ghost was = *self;
        let now = read.read_stat();
        let cpu = self.collect_cpu(now);
        let mem: Option<i32> = match read.read_meminfo() {
            Some(m) => Some(m.collect_mem()),
            None => None,
        };
        let disk: Option<i32> = match &read.disk {
            Some(d) => collect_disk(d.0, d.1),
            None => None,
        };
        let ip = match &read.interfaces {
            Some(list) => collect_ip(list),
            None => None,
        };
        let freq: Option<i32> = match &read.freq {
            Some(t) => collect_freq(t.as_str()),
            None => None,
        };
        let d = SysinfoData {
            cpu,
            temp: read.temp,
            mem,
            disk,
            load: read.load,
            up: read.up,
            ip,
            freq,
            time: read.time,
        };
        assert(d@ == read.told(was));
        d.message()
    }
}

// ---------------------------------------------------------------------------
// The bridge
// ---------------------------------------------------------------------------

/// The shortest time between two messages, in nanoseconds.
pub const SHORTEST_INTERVAL_NS: u64 = 500_000_000;

/// The time between two messages where the settings ask for less, in nanoseconds.
pub const USUAL_INTERVAL_NS: u64 = 2_000_000_000;

/// The length of one rest, in nanoseconds.
pub const REST_NS: u64 = 100_000_000;

/// The time between two messages.
pub open spec fn interval_of(asked_ns: u64) -> u64 {
    if asked_ns < SHORTEST_INTERVAL_NS {
        USUAL_INTERVAL_NS
    } else {
        asked_ns
    }
}

/// The time between two messages.
pub fn update_interval(config: &SysinfoConfig) -> (r: u64)
    ensures
        r == interval_of(config.update_interval_ns),
{
    if config.update_interval_ns < SHORTEST_INTERVAL_NS {
        USUAL_INTERVAL_NS
    } else {
        config.update_interval_ns
    }
}

/// What happened while the bridge comes up, or that it has run.
#[derive(Debug, Clone, Copy, PartialEq, Eq, Structural)]
pub enum SysinfoEvent {
    /// The line was opened, or could not be.
    Connected(bool),
    /// The device gave its name, or did not.
    Identified(bool),
    /// A signal came, and the loop has ended.
    Ended,
}

/// What to do next.
#[derive(Debug, Clone, Copy, PartialEq, Eq, Structural)]
pub enum SysinfoStep {
    Identify,
    /// Take a first look at the processor, rest once, and send messages.
    Loop,
    /// Leave with this exit code.
    Exit(i32),
}

/// What follows an event while the bridge comes up: a device that does not give its name is used
/// all the same.
pub open spec fn sysinfo_step(event: SysinfoEvent) -> SysinfoStep {
    match event {
        SysinfoEvent::Connected(true) => SysinfoStep::Identify,
        SysinfoEvent::Connected(false) => SysinfoStep::Exit(1),
        SysinfoEvent::Identified(_) => SysinfoStep::Loop,
        SysinfoEvent::Ended => SysinfoStep::Exit(0),
    }
}

/// What a report tells: the messages and bytes since the last one.
#[derive(Debug, Clone, Copy, PartialEq, Eq, Structural)]
pub struct SysinfoReport {
    pub updates: u32,
    pub bytes_sent: usize,
}

/// The bridge: the time between two messages, what was last seen of the processor, and what the
/// next report will tell.
#[derive(Debug, Clone, Copy, PartialEq, Eq, Structural)]
pub struct SysinfoBridge {
    pub update_interval_ns: u64,
    pub collector: SysinfoCollector,
    pub stats_updates: u32,
    pub stats_bytes_sent: usize,
    pub stats_last_report: u64,
}

impl SysinfoBridge {
    /// The bridge at the time `now`. Nothing was sent yet.
    pub fn new(config: &SysinfoConfig, now: u64) -> (r: SysinfoBridge)
        ensures
            r == (SysinfoBridge {
                update_interval_ns: interval_of(config.update_interval_ns),
                collector: SysinfoCollector { cpu_prev: None },
                stats_updates: 0,
                stats_bytes_sent: 0,
                stats_last_report: now,
            }),
    {
        SysinfoBridge {
            update_interval_ns: update_interval(config),
            collector: SysinfoCollector::new(),
            stats_updates: 0,
            stats_bytes_sent: 0,
            stats_last_report: now,
        }
    }

    /// Goes on after an event while the bridge comes up, or leaves after it has run.
    pub fn run(event: SysinfoEvent) -> (r: SysinfoStep)
        ensures
            r == sysinfo_step(event),
    {
        match event {
            SysinfoEvent::Connected(ok) => if ok {
                SysinfoStep::Identify
            } else {
                SysinfoStep::Exit(1)
            },
            SysinfoEvent::Identified(_) => SysinfoStep::Loop,
            SysinfoEvent::Ended => SysinfoStep::Exit(0),
        }
    }

    /// Counts a message of `size` bytes.
    pub fn count_update(&mut self, size: usize)
        requires
            old(self).stats_updates < u32::MAX,
            old(self).stats_bytes_sent + size <= usize::MAX,
        ensures
            *final(self) == (SysinfoBridge {
                stats_updates: (old(self).stats_updates + 1) as u32,
                stats_bytes_sent: (old(self).stats_bytes_sent + size) as usize,
                ..*old(self)
            }),
    {
        self.stats_updates = self.stats_updates + 1;
        self.stats_bytes_sent = self.stats_bytes_sent + size;
    }

    /// The number of rests between two messages.
    pub fn rests(&self) -> (r: u32)
        ensures
            r as int == if self.update_interval_ns as int / REST_NS as int > u32::MAX {
                u32::MAX as int
            } else {
                self.update_interval_ns as int / REST_NS as int
            },
    {
        let n: u64 = self.update_interval_ns / REST_NS;
        if n > u32::MAX as u64 {
            u32::MAX
        } else {
            n as u32
        }
    }

    /// The report that is due at the time `now`, if one is: a minute after the last. The counts
    /// then start anew.
    pub fn report_stats(&mut self, now: u64) -> (r: Option<SysinfoReport>)
        ensures
            if elapsed(old(self).stats_last_report, now) < STATS_INTERVAL_NS {
                r is None && *final(self) == *old(self)
            } else {
                &&& r == Some(
                    SysinfoReport {
                        updates: old(self).stats_updates,
                        bytes_sent: old(self).stats_bytes_sent,
                    },
                )
                &&& *final(self) == (SysinfoBridge {
                    stats_updates: 0,
                    stats_bytes_sent: 0,
                    stats_last_report: now,
                    ..*old(self)
                })
            },
    {
        let past: u64 = elapsed_ns(self.stats_last_report, now);
        if past < STATS_INTERVAL_NS {
            return None;
        }
        let report = SysinfoReport {
            updates: self.stats_updates,
            bytes_sent: self.stats_bytes_sent,
        };
        self.stats_updates = 0;
        self.stats_bytes_sent = 0;
        self.stats_last_report = now;
        Some(report)
    }
}

/// The bridge leaves with 1 exactly if the line could not be opened, and with 0 after its loop.
pub proof fn law_exit_codes(event: SysinfoEvent)
    ensures
        sysinfo_step(event) == SysinfoStep::Exit(1) <==> event == SysinfoEvent::Connected(false),
        sysinfo_step(event) == SysinfoStep::Exit(0) <==> event == SysinfoEvent::Ended,
{
}

} // verus!
