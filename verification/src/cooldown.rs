//! Devices that do not answer, and for how long they are left alone.
use crate::text::same_text;
use vstd::prelude::*;
use vstd::string::*;

verus! {

/// The number of failures from which on a device is left alone for a while.
pub const COOLDOWN_FAILURE_THRESHOLD: u32 = 3;

/// For how many turns a device is left alone at first.
pub const COOLDOWN_INITIAL_SKIP: u32 = 3;

/// For how many turns a device is left alone at most.
pub const COOLDOWN_MAX_SKIP: u32 = 30;

/// How often a device did not answer, and for how many turns it is left alone.
#[derive(Debug, Clone, Copy, PartialEq, Eq, Structural)]
pub struct Cooldown {
    pub failures: u32,
    pub skip_cycles: u32,
    pub skip_remaining: u32,
}

impl Cooldown {
    /// A device that has answered, or was never asked.
    pub open spec fn fresh() -> Cooldown {
        Cooldown { failures: 0, skip_cycles: 0, skip_remaining: 0 }
    }

    pub open spec fn well_formed(self) -> bool {
        self.skip_cycles <= COOLDOWN_MAX_SKIP && self.skip_remaining <= self.skip_cycles
    }

    /// After one more failure.
    pub open spec fn after_failure(self) -> Cooldown {
        let failures = (self.failures + 1) as u32;
        if failures < COOLDOWN_FAILURE_THRESHOLD {
            Cooldown { failures, ..self }
        } else {
            let skip = if self.skip_cycles < COOLDOWN_INITIAL_SKIP {
                COOLDOWN_INITIAL_SKIP
            } else if self.skip_cycles * 2 < COOLDOWN_MAX_SKIP {
                (self.skip_cycles * 2) as u32
            } else {
                COOLDOWN_MAX_SKIP
            };
            Cooldown { failures, skip_cycles: skip, skip_remaining: skip }
        }
    }
}

/// What is remembered after `n` failures in a row, each after the turns in which the device was
/// left alone.
pub open spec fn failed_times(n: nat) -> Cooldown
    decreases n,
{
    if n == 0 {
        Cooldown::fresh()
    } else {
        let before = failed_times((n - 1) as nat);
        Cooldown { skip_remaining: 0, ..before }.after_failure()
    }
}

/// A device that does not answer is asked again every turn at first, and then after 3, 6, 12, 24
/// and at last 30 turns: it is never given up.
pub proof fn law_cooldown_steps(n: nat)
    requires
        n < u32::MAX,
    ensures
        failed_times(n).failures == n,
        n < 3 ==> failed_times(n).skip_remaining == 0,
        n == 3 ==> failed_times(n).skip_remaining == 3,
        n == 4 ==> failed_times(n).skip_remaining == 6,
        n == 5 ==> failed_times(n).skip_remaining == 12,
        n == 6 ==> failed_times(n).skip_remaining == 24,
        n >= 7 ==> failed_times(n).skip_remaining == COOLDOWN_MAX_SKIP,
        n >= 3 ==> failed_times(n).skip_cycles == failed_times(n).skip_remaining,
        n < 3 ==> failed_times(n).skip_cycles == 0,
    decreases n,
{
    if n > 0 {
        law_cooldown_steps((n - 1) as nat);
    }
}

/// A device, and what is remembered of it.
#[derive(Debug)]
pub struct CooldownEntry {
    pub path: String,
    pub cooldown: Cooldown,
}

/// What is remembered of the devices.
#[derive(Debug)]
pub struct Cooldowns {
    pub entries: Vec<CooldownEntry>,
}

/// Entries as a table.
pub open spec fn table_of(entries: Seq<CooldownEntry>) -> Map<Seq<char>, Cooldown>
    decreases entries.len(),
{
    if entries.len() == 0 {
        Map::empty()
    } else {
        table_of(entries.drop_last()).insert(entries.last().path@, entries.last().cooldown)
    }
}

/// No device has two entries.
pub open spec fn one_each(entries: Seq<CooldownEntry>) -> bool {
    forall|i: int, j: int|
        0 <= i < j < entries.len() ==> (#[trigger] entries[i]).path@ != (#[trigger] entries[j]).path@
}

/// The table with an entry for `path`, fresh where it has none.
pub open spec fn entry_or_fresh(m: Map<Seq<char>, Cooldown>, path: Seq<char>) -> Cooldown {
    if m.contains_key(path) {
        m[path]
    } else {
        Cooldown::fresh()
    }
}

proof fn lemma_table_has(entries: Seq<CooldownEntry>, i: int)
    requires
        one_each(entries),
        0 <= i < entries.len(),
    ensures
        table_of(entries).contains_key(entries[i].path@),
        table_of(entries)[entries[i].path@] == entries[i].cooldown,
    decreases entries.len(),
{
    let d = entries.drop_last();
    assert forall|a: int, b: int| 0 <= a < b < d.len() implies (#[trigger] d[a]).path@ != (
    #[trigger] d[b]).path@ by {
        assert(d[a] == entries[a] && d[b] == entries[b]);
    }
    if i < entries.len() - 1 {
        lemma_table_has(d, i);
        assert(d[i] == entries[i]);
        assert(entries[i].path@ != entries[entries.len() - 1].path@);
    }
}

proof fn lemma_table_lacks(entries: Seq<CooldownEntry>, path: Seq<char>)
    requires
        forall|i: int| 0 <= i < entries.len() ==> (#[trigger] entries[i]).path@ != path,
    ensures
        !table_of(entries).contains_key(path),
    decreases entries.len(),
{
    if entries.len() > 0 {
        let d = entries.drop_last();
        assert forall|i: int| 0 <= i < d.len() implies (#[trigger] d[i]).path@ != path by {
            assert(d[i] == entries[i]);
        }
        lemma_table_lacks(d, path);
        assert(entries[entries.len() - 1].path@ != path);
    }
}

proof fn lemma_one_each_part(entries: Seq<CooldownEntry>)
    requires
        one_each(entries),
        entries.len() > 0,
    ensures
        one_each(entries.drop_last()),
        forall|i: int|
            0 <= i < entries.len() - 1 ==> (#[trigger] entries[i]).path@ != entries.last().path@,
{
    let d = entries.drop_last();
    assert forall|a: int, b: int| 0 <= a < b < d.len() implies (#[trigger] d[a]).path@ != (
    #[trigger] d[b]).path@ by {
        assert(d[a] == entries[a] && d[b] == entries[b]);
    }
    assert forall|i: int| 0 <= i < entries.len() - 1 implies (#[trigger] entries[i]).path@
        != entries.last().path@ by {
        assert(entries[i].path@ != entries[entries.len() - 1].path@);
    }
}

proof fn lemma_table_update(entries: Seq<CooldownEntry>, i: int, e: CooldownEntry)
    requires
        one_each(entries),
        0 <= i < entries.len(),
        e.path@ == entries[i].path@,
    ensures
        one_each(entries.update(i, e)),
        table_of(entries.update(i, e)) == table_of(entries).insert(e.path@, e.cooldown),
    decreases entries.len(),
{
    let u = entries.update(i, e);
    assert forall|a: int, b: int| 0 <= a < b < u.len() implies (#[trigger] u[a]).path@ != (
    #[trigger] u[b]).path@ by {
        assert(entries[a].path@ != entries[b].path@);
    }
    lemma_one_each_part(entries);
    if i == entries.len() - 1 {
        assert(u.drop_last() =~= entries.drop_last());
        assert(table_of(u) =~= table_of(entries).insert(e.path@, e.cooldown));
    } else {
        lemma_table_update(entries.drop_last(), i, e);
        assert(u.drop_last() =~= entries.drop_last().update(i, e));
        assert(entries[i].path@ != entries.last().path@);
        assert(table_of(u) =~= table_of(entries).insert(e.path@, e.cooldown));
    }
}

proof fn lemma_table_remove(entries: Seq<CooldownEntry>, i: int)
    requires
        one_each(entries),
        0 <= i < entries.len(),
    ensures
        one_each(entries.remove(i)),
        table_of(entries.remove(i)) == table_of(entries).remove(entries[i].path@),
    decreases entries.len(),
{
    let r = entries.remove(i);
    assert forall|a: int, b: int| 0 <= a < b < r.len() implies (#[trigger] r[a]).path@ != (
    #[trigger] r[b]).path@ by {
        let x = if a < i {
            a
        } else {
            a + 1
        };
        let y = if b < i {
            b
        } else {
            b + 1
        };
        assert(r[a] == entries[x] && r[b] == entries[y]);
        assert(entries[x].path@ != entries[y].path@);
    }
    lemma_one_each_part(entries);
    let d = entries.drop_last();
    if i == entries.len() - 1 {
        assert(r =~= d);
        assert forall|k: int| 0 <= k < d.len() implies (#[trigger] d[k]).path@ != entries[i].path@ by {
            assert(d[k] == entries[k]);
        }
        lemma_table_lacks(d, entries[i].path@);
        assert(table_of(r) =~= table_of(entries).remove(entries[i].path@));
    } else {
        lemma_table_remove(d, i);
        assert(r.drop_last() =~= d.remove(i));
        assert(r.last() == entries.last());
        assert(d[i] == entries[i]);
        assert(entries[i].path@ != entries.last().path@);
        assert(table_of(r) =~= table_of(entries).remove(entries[i].path@));
    }
}

impl View for Cooldowns {
    type V = Map<Seq<char>, Cooldown>;

    open spec fn view(&self) -> Map<Seq<char>, Cooldown> {
        table_of(self.entries@)
    }
}

impl Cooldowns {
    pub open spec fn well_formed(self) -> bool {
        &&& one_each(self.entries@)
        &&& forall|i: int|
            0 <= i < self.entries@.len() ==> (#[trigger] self.entries@[i]).cooldown.well_formed()
    }

    /// Nothing is remembered.
    pub fn new() -> (r: Cooldowns)
        ensures
            r.well_formed(),
            r@ == Map::<Seq<char>, Cooldown>::empty(),
    {
        Cooldowns { entries: Vec::new() }
    }

    fn place(&self, path: &str) -> (r: Option<usize>)
        requires
            self.well_formed(),
        ensures
            match r {
                Some(i) => i < self.entries@.len() && self.entries@[i as int].path@ == path@
                    && self@.contains_key(path@) && self@[path@]
                    == self.entries@[i as int].cooldown,
                None => !self@.contains_key(path@) && forall|i: int|
                    0 <= i < self.entries@.len() ==> (#[trigger] self.entries@[i]).path@ != path@,
            },
    {
        let n: usize = self.entries.len();
        let mut i: usize = 0;
        while i < n
            invariant
                n == self.entries@.len(),
                i <= n,
                self.well_formed(),
                forall|k: int| 0 <= k < i ==> (#[trigger] self.entries@[k]).path@ != path@,
            decreases n - i,
        {
            if same_text(self.entries[i].path.as_str(), path) {
                proof {
                    lemma_table_has(self.entries@, i as int);
                }
                return Some(i);
            }
            i = i + 1;
        }
        proof {
            lemma_table_lacks(self.entries@, path@);
        }
        None
    }

    fn put(&mut self, i: usize, path: &str, cooldown: Cooldown)
        requires
            old(self).well_formed(),
            i < old(self).entries@.len(),
            old(self).entries@[i as int].path@ == path@,
            cooldown.well_formed(),
        ensures
            final(self).well_formed(),
            final(self)@ == old(self)@.insert(path@, cooldown),
    {
        let e = CooldownEntry { path: path.to_owned(), cooldown };
        proof {
            lemma_table_update(self.entries@, i as int, e);
        }
        self.entries.set(i, e);
        assert(self.entries@ =~= old(self).entries@.update(i as int, e));
    }

    /// Whether the device is left alone this turn.
    pub fn should_skip(&mut self, path: &str) -> (r: bool)
        requires
            old(self).well_formed(),
        ensures
            final(self).well_formed(),
            r == (old(self)@.contains_key(path@) && old(self)@[path@].skip_remaining > 0),
            final(self)@ == if r {
                old(self)@.insert(
                    path@,
                    Cooldown {
                        skip_remaining: (old(self)@[path@].skip_remaining - 1) as u32,
                        ..old(self)@[path@]
                    },
                )
            } else {
                old(self)@
            },
    {
        match self.place(path) {
            Some(i) => {
                let c = self.entries[i].cooldown;
                if c.skip_remaining > 0 {
                    let next = Cooldown {
                        failures: c.failures,
                        skip_cycles: c.skip_cycles,
                        skip_remaining: c.skip_remaining - 1,
                    };
                    self.put(i, path, next);
                    true
                } else {
                    false
                }
            },
            None => false,
        }
    }

    /// Takes note of a device that did not answer. Returns for how many turns it is left alone, if
    /// it is.
    pub fn record_failure(&mut self, path: &str) -> (r: Option<u32>)
        requires
            old(self).well_formed(),
            entry_or_fresh(old(self)@, path@).failures < u32::MAX,
        ensures
            final(self).well_formed(),
            ({
                let next = entry_or_fresh(old(self)@, path@).after_failure();
                &&& final(self)@ == old(self)@.insert(path@, next)
                &&& r == if next.failures >= COOLDOWN_FAILURE_THRESHOLD {
                    Some(next.skip_cycles)
                } else {
                    None
                }
            }),
    {
        let place = self.place(path);
        let c = match place {
            Some(i) => self.entries[i].cooldown,
            None => Cooldown { failures: 0, skip_cycles: 0, skip_remaining: 0 },
        };
        let failures: u32 = c.failures + 1;
        let told = failures >= COOLDOWN_FAILURE_THRESHOLD;
        let next = if !told {
            Cooldown { failures, skip_cycles: c.skip_cycles, skip_remaining: c.skip_remaining }
        } else {
            let skip: u32 = if c.skip_cycles < COOLDOWN_INITIAL_SKIP {
                COOLDOWN_INITIAL_SKIP
            } else if c.skip_cycles * 2 < COOLDOWN_MAX_SKIP {
                c.skip_cycles * 2
            } else {
                COOLDOWN_MAX_SKIP
            };
            Cooldown { failures, skip_cycles: skip, skip_remaining: skip }
        };
        match place {
            Some(i) => {
                self.put(i, path, next);
            },
            None => {
                let e = CooldownEntry { path: path.to_owned(), cooldown: next };
                self.entries.push(e);
                proof {
                    assert(self.entries@.drop_last() =~= old(self).entries@);
                }
            },
        }
        if told {
            Some(next.skip_cycles)
        } else {
            None
        }
    }

    /// Takes note of a device that answered.
    pub fn record_success(&mut self, path: &str)
        requires
            old(self).well_formed(),
        ensures
            final(self).well_formed(),
            final(self)@ == if old(self)@.contains_key(path@) {
                old(self)@.insert(path@, Cooldown::fresh())
            } else {
                old(self)@
            },
    {
        match self.place(path) {
            Some(i) => {
                self.put(i, path, Cooldown { failures: 0, skip_cycles: 0, skip_remaining: 0 });
            },
            None => {},
        }
    }

    /// Forgets a device.
    pub fn remove(&mut self, path: &str)
        requires
            old(self).well_formed(),
        ensures
            final(self).well_formed(),
            final(self)@ == old(self)@.remove(path@),
    {
        match self.place(path) {
            Some(i) => {
                proof {
                    lemma_table_remove(self.entries@, i as int);
                }
                self.entries.remove(i);
                assert(self.entries@ =~= old(self).entries@.remove(i as int));
            },
            None => {
                assert(self@.remove(path@) =~= self@);
            },
        }
    }

    /// How often the device did not answer.
    pub fn failures(&self, path: &str) -> (r: u32)
        requires
            self.well_formed(),
        ensures
            r == entry_or_fresh(self@, path@).failures,
    {
        match self.place(path) {
            Some(i) => self.entries[i].cooldown.failures,
            None => 0,
        }
    }
}

/// For how many turns a device is left alone after one more failure.
pub open spec fn pause_after(c: Cooldown) -> Option<u32> {
    if c.after_failure().failures >= COOLDOWN_FAILURE_THRESHOLD {
        Some(c.after_failure().skip_cycles)
    } else {
        None
    }
}

/// What is remembered once a device has answered.
pub open spec fn after_answer(m: Map<Seq<char>, Cooldown>, path: Seq<char>) -> Map<
    Seq<char>,
    Cooldown,
> {
    if m.contains_key(path) {
        m.insert(path, Cooldown::fresh())
    } else {
        m
    }
}

/// A device that is plugged in anew is not left alone, however often it failed before.
pub proof fn law_plugged_in_is_asked(m: Map<Seq<char>, Cooldown>, path: Seq<char>)
    ensures
        entry_or_fresh(m.remove(path), path) == Cooldown::fresh(),
        forall|other: Seq<char>| other != path ==> #[trigger] entry_or_fresh(m.remove(path), other)
            == entry_or_fresh(m, other),
{
}

} // verus!
