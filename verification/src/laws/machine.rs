//! What holds of what is told of the machine.
use crate::json::quoted;
use crate::pieces::{lines, starts_with, trim, words};
use crate::sysinfo_bridge::{
    address_of, counters_of, disk_share, first_address, interval_of, labelled, link_kind, megahertz,
    memory_after, memory_of, memory_with, quotient, sysinfo_step, wide, wide64, with_number, with_raw,
    with_text, CpuCounters, Interface, LinkKind, Memory, Readings, SysinfoCollector, SysinfoEvent,
    SysinfoStep, SysinfoView,
};
use crate::text::{dec_int, parse_int};
use vstd::prelude::*;
use vstd::string::*;

verus! {

// ---------------------------------------------------------------------------
// Shares
// ---------------------------------------------------------------------------

/// The whole number of percent: `p` of `whole` is no more than `part`, and one percent more would be.
pub open spec fn is_percent(p: int, part: int, whole: int) -> bool {
    p * whole <= 100 * part < (p + 1) * whole
}

proof fn lemma_quotient_bounds(a: int, b: int)
    requires
        a >= 0,
        b > 0,
    ensures
        0 <= quotient(a, b),
        quotient(a, b) * b <= a < (quotient(a, b) + 1) * b,
{
    let q = a / b;
    assert(0 <= q && q * b <= a < (q + 1) * b) by (nonlinear_arith)
        requires
            a >= 0,
            b > 0,
            q == a / b,
    ;
}

/// A quotient is rounded towards 0: that of two numbers of one sign is the largest whole number that
/// is no more, and a change of one sign changes its sign and nothing else.
pub proof fn law_quotients(a: int, b: int)
    requires
        a >= 0,
        b > 0,
    ensures
        quotient(a, b) * b <= a < (quotient(a, b) + 1) * b,
        quotient(-a, b) == -quotient(a, b),
        quotient(a, -b) == -quotient(a, b),
        quotient(-a, -b) == quotient(a, b),
{
    lemma_quotient_bounds(a, b);
    assert(0int / b == 0) by (nonlinear_arith)
        requires
            b > 0,
    ;
}

proof fn lemma_percent(p: int, part: int, whole: int)
    requires
        0 <= part <= whole,
        0 < whole,
        p == quotient(100 * part, whole),
    ensures
        is_percent(p, part, whole),
        0 <= p <= 100,
        part == whole ==> p == 100,
        part == 0 ==> p == 0,
        part < whole ==> p < 100,
{
    lemma_quotient_bounds(100 * part, whole);
    assert(p <= 100) by (nonlinear_arith)
        requires
            p * whole <= 100 * part,
            part <= whole,
            0 < whole,
    ;
    if part == whole {
        assert(p == 100) by (nonlinear_arith)
            requires
                p <= 100,
                100 * part < (p + 1) * whole,
                part == whole,
                0 < whole,
        ;
    } else {
        assert(p < 100) by (nonlinear_arith)
            requires
                p * whole <= 100 * part,
                part < whole,
                0 < whole,
        ;
    }
    if part == 0 {
        assert(p == 0) by (nonlinear_arith)
            requires
                0 <= p,
                p * whole <= 100 * part,
                part == 0,
                0 < whole,
        ;
    }
}

// ---------------------------------------------------------------------------
// The processor
// ---------------------------------------------------------------------------

/// The load is the share of the ticks in which the processor neither idled nor waited, in whole
/// percent, of the growth of all seven counters. It is 100 if the processor neither idled nor waited at
/// all, 0 if it did nothing else, and less than 100 if it did either.
pub proof fn law_load(prev: CpuCounters, now: CpuCounters)
    requires
        now.user >= prev.user,
        now.nice >= prev.nice,
        now.system >= prev.system,
        now.idle >= prev.idle,
        now.iowait >= prev.iowait,
        now.irq >= prev.irq,
        now.softirq >= prev.softirq,
        now != prev,
    ensures
        ({
            let seen = SysinfoCollector { cpu_prev: Some(prev) };
            let d_idle = now.idle - prev.idle;
            let d_iowait = now.iowait - prev.iowait;
            let total = (now.user - prev.user) + (now.nice - prev.nice) + (now.system - prev.system) + (
            now.idle - prev.idle) + (now.iowait - prev.iowait) + (now.irq - prev.irq) + (now.softirq
                - prev.softirq);
            &&& seen.load(Some(now)) matches Some(load)
            &&& load * total <= 100 * (total - d_idle - d_iowait) < (load + 1) * total
            &&& d_idle == 0 && d_iowait == 0 ==> load == 100
            &&& d_idle + d_iowait == total ==> load == 0
            &&& d_idle > 0 || d_iowait > 0 ==> load < 100
        }),
{
    let d_idle = now.idle - prev.idle;
    let d_iowait = now.iowait - prev.iowait;
    let busy = (now.user - prev.user) + (now.nice - prev.nice) + (now.system - prev.system) + (now.irq
        - prev.irq) + (now.softirq - prev.softirq);
    let total = busy + d_idle + d_iowait;
    assert(total > 0);
    lemma_percent(quotient(100 * busy, total), busy, total);
}

/// Counters that ran backwards by as much give the same load: only how they share in the change counts.
pub proof fn law_load_either_way(prev: CpuCounters, now: CpuCounters)
    ensures
        now.load_since(prev) == prev.load_since(now),
{
    let a = now.total_since(prev);
    let b = prev.total_since(now);
    assert(a == -b);
    let x = 100 * now.busy_since(prev);
    let y = 100 * prev.busy_since(now);
    assert(x == -y);
    if a != 0 {
        let d = if a < 0 {
            -a
        } else {
            a
        };
        assert(0int / d == 0) by (nonlinear_arith)
            requires
                d > 0,
        ;
    }
}

/// Counters as a machine has them can be compared: none has shrunk, and together they are far from the
/// end of their range.
pub proof fn law_usual_counters(prev: CpuCounters, now: CpuCounters)
    requires
        0 <= prev.user <= now.user && 0 <= prev.nice <= now.nice && 0 <= prev.system <= now.system && 0
            <= prev.idle <= now.idle && 0 <= prev.iowait <= now.iowait && 0 <= prev.irq <= now.irq && 0
            <= prev.softirq <= now.softirq,
        100 * (now.user + now.nice + now.system + now.idle + now.iowait + now.irq + now.softirq)
            <= i64::MAX,
    ensures
        (SysinfoCollector { cpu_prev: Some(prev) }).can_take(Some(now)),
        (SysinfoCollector { cpu_prev: Some(prev) }).can_take(None),
        (SysinfoCollector { cpu_prev: None }).can_take(Some(now)),
{
}

/// The share of a memory of the usual size can be computed, and everything that is read of a machine of
/// the usual size fits.
pub proof fn law_usual_memory(m: Memory, read: Readings)
    ensures
        0 <= m.available <= m.total && 0 < m.total && 100 * m.total <= i64::MAX ==> m.has_share(),
        m.total <= 0 ==> !m.has_share(),
        read.stat is None && read.meminfo is None && read.disk is None ==> read.fit(
            SysinfoCollector { cpu_prev: None },
        ),
        read.stat is None && read.meminfo is None ==> (read.disk matches Some(d) ==> (d.1 <= d.0 && 100
            * d.0 <= u64::MAX ==> read.fit(SysinfoCollector { cpu_prev: None }))),
{
}

/// There is no load without two looks; a look at counters that did not move gives 0. A look is
/// remembered exactly if the counters could be read.
pub proof fn law_looks(before: SysinfoCollector, now: CpuCounters)
    ensures
        before.load(None) is None,
        before.cpu_prev is None ==> before.load(Some(now)) is None,
        before.after_look(Some(now)).cpu_prev == Some(now),
        before.after_look(Some(now)).load(Some(now)) == Some(0i32),
        before.after_look(None) == before,
{
}

/// The counters are the numbers behind the first word of the first line, in the order in which the
/// kernel gives them.
pub proof fn law_counters_are_read(text: Seq<char>, c: CpuCounters)
    requires
        lines(text).len() > 0,
        words(lines(text)[0]).len() >= 8,
        ({
            let w = words(lines(text)[0]);
            &&& parse_int(w[1]) == Some(c.user as int)
            &&& parse_int(w[2]) == Some(c.nice as int)
            &&& parse_int(w[3]) == Some(c.system as int)
            &&& parse_int(w[4]) == Some(c.idle as int)
            &&& parse_int(w[5]) == Some(c.iowait as int)
            &&& parse_int(w[6]) == Some(c.irq as int)
            &&& parse_int(w[7]) == Some(c.softirq as int)
        }),
    ensures
        counters_of(text) == Some(c),
{
    let w = words(lines(text)[0]);
    assert forall|i: int| 1 <= i < 8 implies crate::text::int_within(
        #[trigger] w[i],
        i64::MIN as int,
        i64::MAX as int,
    ) is Some by {
        assert(i == 1 || i == 2 || i == 3 || i == 4 || i == 5 || i == 6 || i == 7);
    }
}

/// Counters that were read are the numbers on the first line: where one of them is missing or no
/// number, there are none.
pub proof fn law_counters_come_from_the_first_line(text: Seq<char>)
    ensures
        counters_of(text) matches Some(c) ==> {
            let w = words(lines(text)[0]);
            &&& lines(text).len() > 0 && w.len() >= 8
            &&& parse_int(w[1]) == Some(c.user as int)
            &&& parse_int(w[2]) == Some(c.nice as int)
            &&& parse_int(w[3]) == Some(c.system as int)
            &&& parse_int(w[4]) == Some(c.idle as int)
            &&& parse_int(w[5]) == Some(c.iowait as int)
            &&& parse_int(w[6]) == Some(c.irq as int)
            &&& parse_int(w[7]) == Some(c.softirq as int)
        },
{
    if counters_of(text) is Some {
        let w = words(lines(text)[0]);
        assert(crate::text::int_within(w[1], i64::MIN as int, i64::MAX as int) is Some);
        assert(crate::text::int_within(w[2], i64::MIN as int, i64::MAX as int) is Some);
        assert(crate::text::int_within(w[3], i64::MIN as int, i64::MAX as int) is Some);
        assert(crate::text::int_within(w[4], i64::MIN as int, i64::MAX as int) is Some);
        assert(crate::text::int_within(w[5], i64::MIN as int, i64::MAX as int) is Some);
        assert(crate::text::int_within(w[6], i64::MIN as int, i64::MAX as int) is Some);
        assert(crate::text::int_within(w[7], i64::MIN as int, i64::MAX as int) is Some);
    }
}

// ---------------------------------------------------------------------------
// Memory, disk, frequency
// ---------------------------------------------------------------------------

/// The share of the memory in use is that of what is not free, in whole percent: all of it if none is
/// free, and none if all is.
pub proof fn law_memory_in_use(m: Memory)
    requires
        0 <= m.available <= m.total,
        0 < m.total,
    ensures
        is_percent(m.used_share() as int, m.total - m.available, m.total as int),
        m.available == 0 ==> m.used_share() == 100,
        m.available == m.total ==> m.used_share() == 0,
{
    lemma_percent(
        quotient(100 * (m.total - m.available), m.total as int),
        m.total - m.available,
        m.total as int,
    );
}

/// Where more is said to be free than there is, the share is negative, rounded towards 0.
pub proof fn law_more_free_than_there_is(m: Memory)
    requires
        0 < m.total < m.available <= 2 * m.total,
    ensures
        ({
            let p = m.used_share() as int;
            &&& -100 <= p <= 0
            &&& (p - 1) * m.total < 100 * (m.total - m.available) <= p * m.total
        }),
{
    let part = m.available - m.total;
    let whole = m.total as int;
    let q = quotient(100 * part, whole);
    lemma_percent(q, part, whole);
    assert(quotient(-(100 * part), whole) == -q);
    assert(100 * (m.total - m.available) == -(100 * part));
    assert((-q - 1) * whole == -((q + 1) * whole)) by (nonlinear_arith);
    assert((-q) * whole == -(q * whole)) by (nonlinear_arith);
}

/// The share of the disk in use is that of the blocks that are not free, in whole percent. A disk
/// without blocks has none.
pub proof fn law_disk_in_use(blocks: u64, available: u64)
    requires
        available <= blocks,
    ensures
        disk_share(blocks, available) is None <==> blocks == 0,
        disk_share(blocks, available) matches Some(p) ==> {
            &&& is_percent(p as int, blocks - available, blocks as int)
            &&& available == 0 ==> p == 100
            &&& available == blocks ==> p == 0
        },
{
    if blocks > 0 {
        lemma_percent(
            quotient(100 * (blocks - available), blocks as int),
            blocks - available,
            blocks as int,
        );
    }
}

/// The frequency is given in kilohertz and told in whole megahertz, whatever white space stands round
/// it; what is no number tells nothing.
pub proof fn law_frequency(text: Seq<char>)
    ensures
        parse_int(trim(text)) is None ==> megahertz(text) is None,
        parse_int(trim(text)) matches Some(khz) ==> (0 <= khz <= i32::MAX ==> {
            &&& megahertz(text) matches Some(mhz)
            &&& mhz * 1000 <= khz < (mhz + 1) * 1000
        }),
        parse_int(trim(text)) matches Some(khz) ==> (khz > i32::MAX || khz < i32::MIN ==> megahertz(text)
            is None),
{
    if let Some(khz) = parse_int(trim(text)) {
        if 0 <= khz <= i32::MAX {
            lemma_quotient_bounds(khz, 1000);
        }
    }
}

/// A line that begins with one of the two labels tells the number behind it, and changes nothing else;
/// any other line tells nothing.
pub proof fn law_memory_lines(m: Memory, rest: Seq<char>, n: i64, line: Seq<char>)
    requires
        words(rest).len() > 0,
        parse_int(words(rest)[0]) == Some(n as int),
    ensures
        memory_with(m, "MemTotal:"@ + rest) == Some(Memory { total: n, available: m.available }),
        memory_with(m, "MemAvailable:"@ + rest) == Some(Memory { total: m.total, available: n }),
        !starts_with(line, "MemTotal:"@) && !starts_with(line, "MemAvailable:"@) ==> memory_with(m, line)
            == Some(m),
{
    reveal_strlit("MemTotal:");
    reveal_strlit("MemAvailable:");
    let a = "MemTotal:"@ + rest;
    let b = "MemAvailable:"@ + rest;
    assert(a.subrange(0, 9) =~= "MemTotal:"@);
    assert(a.skip(9) =~= rest);
    assert(b.subrange(0, 13) =~= "MemAvailable:"@);
    assert(b.skip(13) =~= rest);
    assert(b[3] == 'A');
    if b.subrange(0, 9) == "MemTotal:"@ {
        assert(b.subrange(0, 9)[3] == 'A');
        assert("MemTotal:"@[3] == 'T');
    }
}

/// Lines without a label before a text do not matter.
proof fn lemma_memory_skips(m: Memory, front: Seq<Seq<char>>, ls: Seq<Seq<char>>)
    requires
        forall|i: int|
            0 <= i < front.len() ==> !starts_with(#[trigger] front[i], "MemTotal:"@) && !starts_with(
                front[i],
                "MemAvailable:"@,
            ),
        !(m.total > 0 && m.available > 0),
    ensures
        memory_after(m, front + ls) == memory_after(m, ls),
    decreases front.len(),
{
    if front.len() == 0 {
        assert(front + ls =~= ls);
    } else {
        let t = front.drop_first();
        assert forall|i: int| 0 <= i < t.len() implies !starts_with(#[trigger] t[i], "MemTotal:"@)
            && !starts_with(t[i], "MemAvailable:"@) by {
            assert(t[i] == front[i + 1]);
        }
        lemma_memory_skips(m, t, ls);
        assert((front + ls)[0] == front[0]);
        assert((front + ls).drop_first() =~= t + ls);
    }
}

/// The memory of the machine is what its two lines tell, wherever they stand, whatever the other lines
/// hold.
pub proof fn law_memory_is_read(
    text: Seq<char>,
    front: Seq<Seq<char>>,
    total: i64,
    all: Seq<char>,
    between: Seq<Seq<char>>,
    available: i64,
    free: Seq<char>,
    behind: Seq<Seq<char>>,
)
    requires
        lines(text) == front + seq!["MemTotal:"@ + all] + between + seq!["MemAvailable:"@ + free]
            + behind,
        words(all).len() > 0 && parse_int(words(all)[0]) == Some(total as int),
        words(free).len() > 0 && parse_int(words(free)[0]) == Some(available as int),
        total > 0 && available > 0,
        forall|i: int|
            0 <= i < front.len() ==> !starts_with(#[trigger] front[i], "MemTotal:"@) && !starts_with(
                front[i],
                "MemAvailable:"@,
            ),
        forall|i: int|
            0 <= i < between.len() ==> !starts_with(#[trigger] between[i], "MemTotal:"@)
                && !starts_with(between[i], "MemAvailable:"@),
    ensures
        memory_of(text) == Some(Memory { total, available }),
{
    let t = "MemTotal:"@ + all;
    let a = "MemAvailable:"@ + free;
    let m0 = Memory { total: 0, available: 0 };
    let m1 = Memory { total, available: 0 };
    let rest2 = seq![a] + behind;
    let rest1 = seq![t] + (between + rest2);
    assert(lines(text) =~= front + rest1);
    lemma_memory_skips(m0, front, rest1);
    law_memory_lines(m0, all, total, t);
    assert(rest1[0] == t);
    assert(rest1.drop_first() =~= between + rest2);
    lemma_memory_skips(m1, between, rest2);
    law_memory_lines(m1, free, available, a);
    assert(rest2[0] == a);
    assert(memory_after(m1, rest2) == Some(Memory { total, available }));
}

/// Memory that was read is there: there is some of it.
pub proof fn law_memory_is_there(text: Seq<char>)
    ensures
        memory_of(text) matches Some(m) ==> m.total > 0,
        lines(text).len() == 0 ==> memory_of(text) is None,
{
}

// ---------------------------------------------------------------------------
// The address
// ---------------------------------------------------------------------------

/// The interface has an address and is not the loopback.
pub open spec fn serves(i: Interface) -> bool {
    i.address is Some && !i.loopback
}

/// How soon an interface is taken: wired ones first, then the wireless one, then the others.
pub open spec fn place_of(name: Seq<char>) -> int {
    if name == "eth0"@ || name == "end0"@ {
        0
    } else if name == "wlan0"@ {
        1
    } else {
        2
    }
}

proof fn lemma_first_address(list: Seq<Interface>, kind: LinkKind)
    ensures
        match first_address(list, kind) {
            Some(a) => exists|i: int|
                0 <= i < list.len() && serves(#[trigger] list[i]) && link_kind(list[i].name@) == kind
                    && list[i].address->0@ == a && (forall|j: int|
                    0 <= j < i ==> !(serves(#[trigger] list[j]) && link_kind(list[j].name@) == kind)),
            None => forall|i: int|
                0 <= i < list.len() ==> !(serves(#[trigger] list[i]) && link_kind(list[i].name@)
                    == kind),
        },
    decreases list.len(),
{
    if list.len() > 0 {
        let t = list.drop_last();
        let n = t.len() as int;
        lemma_first_address(t, kind);
        assert(list[n] == list.last());
        assert forall|i: int| 0 <= i < n implies #[trigger] t[i] == list[i] by {}
        if first_address(t, kind) is Some {
            let a = first_address(t, kind)->0;
            let i = choose|i: int|
                0 <= i < t.len() && serves(#[trigger] t[i]) && link_kind(t[i].name@) == kind
                    && t[i].address->0@ == a && (forall|j: int|
                    0 <= j < i ==> !(serves(#[trigger] t[j]) && link_kind(t[j].name@) == kind));
            assert(serves(list[i]) && link_kind(list[i].name@) == kind && list[i].address->0@ == a);
            assert forall|j: int| 0 <= j < i implies !(serves(#[trigger] list[j]) && link_kind(
                list[j].name@,
            ) == kind) by {
                assert(t[j] == list[j]);
            }
        } else {
            assert forall|j: int| 0 <= j < n implies !(serves(#[trigger] list[j]) && link_kind(
                list[j].name@,
            ) == kind) by {
                assert(t[j] == list[j]);
            }
        }
    }
}

/// The machine has an address exactly if some interface other than the loopback has one. The address is
/// that of the first such interface of the best kind: wired, wireless, any other.
pub proof fn law_address(list: Seq<Interface>)
    ensures
        address_of(list) is None <==> forall|i: int| 0 <= i < list.len() ==> !serves(#[trigger] list[i]),
        address_of(list) matches Some(a) ==> exists|i: int|
            0 <= i < list.len() && serves(#[trigger] list[i]) && list[i].address->0@ == a && (forall|
                j: int,
            |
                0 <= j < list.len() && serves(#[trigger] list[j]) ==> place_of(list[i].name@)
                    <= place_of(list[j].name@) && (place_of(list[i].name@) == place_of(list[j].name@)
                    ==> i <= j)),
{
    reveal_strlit("eth0");
    reveal_strlit("end0");
    reveal_strlit("wlan0");
    assert("wlan0"@.len() == 5 && "eth0"@.len() == 4 && "end0"@.len() == 4);
    lemma_first_address(list, LinkKind::Wired);
    lemma_first_address(list, LinkKind::Wireless);
    lemma_first_address(list, LinkKind::Other);
    let kind = if first_address(list, LinkKind::Wired) is Some {
        LinkKind::Wired
    } else if first_address(list, LinkKind::Wireless) is Some {
        LinkKind::Wireless
    } else {
        LinkKind::Other
    };
    if address_of(list) is Some {
        let a = address_of(list)->0;
        let i = choose|i: int|
            0 <= i < list.len() && serves(#[trigger] list[i]) && link_kind(list[i].name@) == kind
                && list[i].address->0@ == a && (forall|j: int|
                0 <= j < i ==> !(serves(#[trigger] list[j]) && link_kind(list[j].name@) == kind));
        assert(serves(list[i]));
        assert forall|j: int| 0 <= j < list.len() && serves(#[trigger] list[j]) implies place_of(
            list[i].name@,
        ) <= place_of(list[j].name@) && (place_of(list[i].name@) == place_of(list[j].name@) ==> i
            <= j) by {}
    }
}

// ---------------------------------------------------------------------------
// The message
// ---------------------------------------------------------------------------

/// How a value is told under its name.
pub open spec fn told_as(d: SysinfoView, name: Seq<char>) -> Seq<char> {
    if name == "cpu"@ {
        dec_int(d.cpu->0 as int)
    } else if name == "temp"@ {
        d.temp->0
    } else if name == "mem"@ {
        dec_int(d.mem->0 as int)
    } else if name == "disk"@ {
        dec_int(d.disk->0 as int)
    } else if name == "load"@ {
        quoted(d.load->0)
    } else if name == "up"@ {
        dec_int(d.up->0 as int)
    } else if name == "ip"@ {
        quoted(d.ip->0)
    } else if name == "freq"@ {
        dec_int(d.freq->0 as int)
    } else {
        quoted(d.time)
    }
}

/// Each member has the value that is told under its name.
pub open spec fn told_right(d: SysinfoView, m: Seq<(Seq<char>, Seq<char>)>) -> bool {
    forall|i: int| 0 <= i < m.len() ==> (#[trigger] m[i]).1 == told_as(d, m[i].0)
}

proof fn lemma_member_names()
    ensures
        "cpu"@.len() == 3 && "cpu"@[0] == 'c' && "mem"@.len() == 3 && "mem"@[0] == 'm',
        "up"@.len() == 2 && "up"@[0] == 'u' && "ip"@.len() == 2 && "ip"@[0] == 'i',
        "temp"@.len() == 4 && "temp"@[1] == 'e' && "time"@.len() == 4 && "time"@[1] == 'i',
        "temp"@[0] == 't' && "time"@[0] == 't',
        "disk"@.len() == 4 && "disk"@[0] == 'd' && "load"@.len() == 4 && "load"@[0] == 'l',
        "freq"@.len() == 4 && "freq"@[0] == 'f',
{
    reveal_strlit("cpu");
    reveal_strlit("temp");
    reveal_strlit("mem");
    reveal_strlit("disk");
    reveal_strlit("load");
    reveal_strlit("up");
    reveal_strlit("ip");
    reveal_strlit("freq");
    reveal_strlit("time");
}

/// Each value of the message stands under its own name: the load of the processor under `cpu`, the
/// temperature under `temp`, the shares of memory and disk under `mem` and `disk`, the load averages
/// under `load`, the time since the start under `up`, the address under `ip`, the frequency under
/// `freq`, and the time of day under `time`.
pub proof fn law_values_under_their_names(d: SysinfoView)
    ensures
        told_right(d, d.members()),
{
    lemma_member_names();
    let m0 = Seq::<(Seq<char>, Seq<char>)>::empty();
    let m1 = with_number(m0, "cpu"@, wide(d.cpu));
    assert(told_right(d, m1));
    let m2 = with_raw(m1, "temp"@, d.temp);
    assert(told_right(d, m2));
    let m3 = with_number(m2, "mem"@, wide(d.mem));
    assert(told_right(d, m3));
    let m4 = with_number(m3, "disk"@, wide(d.disk));
    assert(told_right(d, m4));
    let m5 = with_text(m4, "load"@, d.load);
    assert(told_right(d, m5));
    let m6 = with_number(m5, "up"@, wide64(d.up));
    assert(told_right(d, m6));
    let m7 = with_text(m6, "ip"@, d.ip);
    assert(told_right(d, m7));
    let m8 = with_number(m7, "freq"@, wide(d.freq));
    assert(told_right(d, m8));
}

/// What is told of the machine is what was read of it: what comes as it is told stays so, and of the
/// disk, the memory and the processor the shares are told.
pub proof fn law_readings_are_told(read: Readings, seen: SysinfoCollector)
    ensures
        ({
            let t = read.told(seen);
            &&& t.time == read.time@
            &&& t.up == read.up
            &&& (t.temp is Some <==> read.temp is Some) && (read.temp matches Some(s) ==> t.temp
                == Some(s@))
            &&& (t.load is Some <==> read.load is Some) && (read.load matches Some(s) ==> t.load
                == Some(s@))
            &&& read.stat is None ==> t.cpu is None
            &&& read.meminfo is None ==> t.mem is None
            &&& read.interfaces is None ==> t.ip is None
            &&& read.freq is None ==> t.freq is None
            &&& read.disk is None ==> t.disk is None
            &&& read.disk matches Some(d) ==> (0 < d.0 && d.1 <= d.0 ==> t.disk is Some && is_percent(
                t.disk->0 as int,
                d.0 - d.1,
                d.0 as int,
            ))
            &&& read.memory() matches Some(m) ==> (0 <= m.available <= m.total ==> t.mem is Some
                && is_percent(t.mem->0 as int, m.total - m.available, m.total as int))
        }),
{
    if let Some(d) = read.disk {
        if 0 < d.0 && d.1 <= d.0 {
            law_disk_in_use(d.0, d.1);
        }
    }
    if let Some(t) = read.meminfo {
        law_memory_is_there(t@);
        if let Some(m) = memory_of(t@) {
            if 0 <= m.available <= m.total {
                law_memory_in_use(m);
            }
        }
    }
}

/// The load that is told is that since the last look, of counters that are read from the text of the
/// processor alone.
pub proof fn law_load_is_told(read: Readings, prev: CpuCounters, now: CpuCounters, text: String)
    requires
        read.stat == Some(text),
        counters_of(text@) == Some(now),
        now.user >= prev.user && now.nice >= prev.nice && now.system >= prev.system && now.idle
            >= prev.idle && now.iowait >= prev.iowait && now.irq >= prev.irq && now.softirq
            >= prev.softirq,
        now != prev,
    ensures
        ({
            let seen = SysinfoCollector { cpu_prev: Some(prev) };
            let waited = (now.idle - prev.idle) + (now.iowait - prev.iowait);
            let total = waited + (now.user - prev.user) + (now.nice - prev.nice) + (now.system
                - prev.system) + (now.irq - prev.irq) + (now.softirq - prev.softirq);
            read.told(seen).cpu matches Some(load) && is_percent(load as int, total - waited, total)
        }),
{
    law_load(prev, now);
}

/// Messages follow each other at the interval of the settings, unless that is shorter than half a
/// second: then it is two seconds.
pub proof fn law_interval_of_messages(asked_ns: u64)
    ensures
        asked_ns >= 500_000_000 ==> interval_of(asked_ns) == asked_ns,
        asked_ns < 500_000_000 ==> interval_of(asked_ns) == 2_000_000_000,
{
}

/// The bridge comes up in this order: the line is opened, the device is asked, and messages are sent,
/// whether it gave its name or not.
pub proof fn law_machine_start(event: SysinfoEvent)
    ensures
        sysinfo_step(event) == SysinfoStep::Identify <==> event == SysinfoEvent::Connected(true),
        sysinfo_step(event) == SysinfoStep::Loop <==> event is Identified,
{
}

} // verus!
