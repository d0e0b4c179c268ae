//! What holds of the bridge for devices that want more than one kind of message.
use crate::device_identifier::Modes;
use crate::hybrid_bridge::{
    after_start, command_step, last_ended, law_none_ended, modes_detected, no_counts, player_action,
    rest_before, rest_part, retry_allowed, shown_title, state_note, still_running, supported_modes,
    title_note, turn_step, update_due, CommandView, HybridBridge, HybridEvent, HybridId, HybridStep,
    Launch, Readers, TurnStep, Worker,
};
use crate::laws::device::tells_of;
use crate::mpd_bridge::{plan_of, MpdBridge, Params, WireMessage};
use crate::text::{opt_view, views};
use vstd::prelude::*;
use vstd::string::*;

verus! {

// ---------------------------------------------------------------------------
// Modes and parts
// ---------------------------------------------------------------------------

/// The modes of a device are those that were known, those that its reply tells of, and the machine, if
/// the environment asks for it. A reply that could not be read adds nothing, whatever the environment
/// asks for.
pub proof fn law_modes_of_the_device(known: Modes, id: HybridId, sysinfo: bool)
    ensures
        supported_modes(known, None, sysinfo) == known,
        ({
            let list = views(id.modes@);
            let name = opt_view(id.name);
            let m = supported_modes(known, Some(id), sysinfo);
            &&& m.mpd <==> known.mpd || tells_of(list, name, "mpd"@)
            &&& m.cava <==> known.cava || tells_of(list, name, "cava"@)
            &&& m.sysinfo <==> known.sysinfo || sysinfo || tells_of(list, name, "sysinfo"@)
        }),
{
}

/// A reply tells of modes exactly if it could be read and either lists something or some mode is
/// known after it.
pub proof fn law_modes_are_detected(known: Modes, id: HybridId, sysinfo: bool)
    ensures
        !modes_detected(known, None, sysinfo),
        ({
            let name = opt_view(id.name);
            let list = views(id.modes@);
            modes_detected(known, Some(id), sysinfo) <==> {
                ||| list.len() > 0
                ||| known.mpd || known.cava || known.sysinfo || sysinfo
                ||| tells_of(list, name, "mpd"@) || tells_of(list, name, "cava"@) || tells_of(
                    list,
                    name,
                    "sysinfo"@,
                )
            }
        }),
{
}

/// What is launched for a device: the part of the player exactly if its modes hold the player, the
/// part of the analyser exactly if they hold the spectrum, the two parts of the machine exactly if
/// they hold the machine, and the part of the commands in any case; each of them once, the first look
/// at the processor before the worker that tells of the machine.
pub proof fn law_parts_for_the_modes(
    before: HybridBridge,
    after: HybridBridge,
    id: Option<HybridId>,
    sysinfo: bool,
    step: HybridStep,
)
    requires
        before.run_follows(after, HybridEvent::Answered(id), sysinfo, step),
    ensures
        ({
            let m = after.supports;
            &&& step matches HybridStep::Launch { parts, detected }
            &&& parts@.contains(Launch::Mpd) <==> m.mpd
            &&& parts@.contains(Launch::Cava) <==> m.cava
            &&& parts@.contains(Launch::WarmUp) <==> m.sysinfo
            &&& parts@.contains(Launch::Sysinfo) <==> m.sysinfo
            &&& parts@.contains(Launch::Commands)
            &&& parts@.no_duplicates()
            &&& forall|i: int, j: int|
                0 <= i < parts@.len() && 0 <= j < parts@.len() && #[trigger] parts@[i]
                    == Launch::WarmUp && #[trigger] parts@[j] == Launch::Sysinfo ==> i < j
        }),
{
    let m = after.supports;
    if let HybridStep::Launch { parts, detected } = step {
        let p = parts@;
        let n = p.len() as int;
        if m.mpd {
            assert(p[0] == Launch::Mpd);
        }
        if m.cava {
            assert(p[if m.mpd {
                1int
            } else {
                0
            }] == Launch::Cava);
        }
        if m.sysinfo {
            assert(p[n - 3] == Launch::WarmUp && p[n - 2] == Launch::Commands && p[n - 1]
                == Launch::Sysinfo);
        } else {
            assert(p[n - 1] == Launch::Commands);
        }
    }
}

/// What is launched for a device, in terms of its reply: a part belongs to a mode that was known or
/// that the reply tells of, or to the machine, if the environment asks for it.
pub proof fn law_parts_for_the_reply(
    before: HybridBridge,
    after: HybridBridge,
    id: HybridId,
    sysinfo: bool,
    step: HybridStep,
)
    requires
        before.run_follows(after, HybridEvent::Answered(Some(id)), sysinfo, step),
    ensures
        ({
            let list = views(id.modes@);
            let name = opt_view(id.name);
            let machine = before.supports.sysinfo || sysinfo || tells_of(list, name, "sysinfo"@);
            &&& step matches HybridStep::Launch { parts, detected }
            &&& parts@.contains(Launch::Mpd) <==> before.supports.mpd || tells_of(list, name, "mpd"@)
            &&& parts@.contains(Launch::Cava) <==> before.supports.cava || tells_of(
                list,
                name,
                "cava"@,
            )
            &&& parts@.contains(Launch::WarmUp) <==> machine
            &&& parts@.contains(Launch::Sysinfo) <==> machine
            &&& detected <==> list.len() > 0 || parts@.len() > 1
        }),
        after.same_settings(before),
        after.workers == before.workers && after.stats == before.stats,
{
    law_parts_for_the_modes(before, after, Some(id), sysinfo, step);
    law_modes_of_the_device(before.supports, id, sysinfo);
}

/// The bridge comes up in this order: once the line is open, the device is asked; what is launched
/// depends on its answer alone.
pub proof fn law_bridge_comes_up(
    before: HybridBridge,
    after: HybridBridge,
    event: HybridEvent,
    sysinfo: bool,
    step: HybridStep,
)
    requires
        before.run_follows(after, event, sysinfo, step),
    ensures
        step is Identify <==> event == HybridEvent::Connected(true),
        step matches HybridStep::Exit(code) ==> code == 0 || code == 1,
        !(event is Answered) ==> after == before,
{
}

// ---------------------------------------------------------------------------
// The main loop
// ---------------------------------------------------------------------------

/// The main loop stops exactly if some worker has ended, and names one that has: the last in the list.
/// While all go on, the analyser is tried exactly if it is yet to be started.
pub proof fn law_turns(r: Readers, finished: Seq<bool>)
    requires
        finished.len() == r.workers.len(),
    ensures
        ({
            let step = turn_step(r, finished);
            &&& step is Stop <==> finished.contains(true)
            &&& step matches TurnStep::Stop(w) ==> exists|i: int|
                0 <= i < finished.len() && #[trigger] finished[i] && r.workers[i] == w && (forall|j:
                    int|
                    i < j < finished.len() ==> !finished[j])
            &&& step == TurnStep::TryCava <==> !finished.contains(true) && r.deferred
            &&& step == TurnStep::Rest <==> !finished.contains(true) && !r.deferred
        }),
{
    law_none_ended(r.workers, finished);
    if finished.contains(true) {
        let i = choose|i: int| 0 <= i < finished.len() && finished[i] == true;
        assert(finished[i]);
    }
    if last_ended(r.workers, finished) is Some {
        lemma_last_ended(r.workers, finished);
        let i = choose|i: int|
            0 <= i < finished.len() && #[trigger] finished[i] && Some(r.workers[i]) == last_ended(
                r.workers,
                finished,
            ) && (forall|j: int| i < j < finished.len() ==> !finished[j]);
        assert(finished[i] == true);
        assert(finished.contains(true));
    }
}

proof fn lemma_last_ended(workers: Seq<Worker>, finished: Seq<bool>)
    requires
        workers.len() == finished.len(),
        last_ended(workers, finished) is Some,
    ensures
        exists|i: int|
            0 <= i < finished.len() && #[trigger] finished[i] && Some(workers[i]) == last_ended(
                workers,
                finished,
            ) && (forall|j: int| i < j < finished.len() ==> !finished[j]),
    decreases workers.len(),
{
    let n = finished.len() as int;
    if finished.last() {
        assert(finished[n - 1] && Some(workers[n - 1]) == last_ended(workers, finished));
    } else {
        let w = workers.drop_last();
        let f = finished.drop_last();
        lemma_last_ended(w, f);
        let i = choose|i: int|
            0 <= i < f.len() && #[trigger] f[i] && Some(w[i]) == last_ended(w, f) && (forall|j: int|
                i < j < f.len() ==> !f[j]);
        assert(finished[i]);
        assert forall|j: int| i < j < finished.len() implies !finished[j] by {
            if j < f.len() {
                assert(!f[j]);
            }
        }
    }
}

/// A worker is kept exactly if it has not ended, and those that are kept stay in their order: of two
/// lists of workers, one behind the other, each is gone through on its own.
pub proof fn law_workers_are_kept(
    a: Seq<Worker>,
    b: Seq<Worker>,
    fa: Seq<bool>,
    fb: Seq<bool>,
    w: Worker,
    ended: bool,
)
    requires
        a.len() == fa.len(),
        b.len() == fb.len(),
    ensures
        still_running(a + b, fa + fb) == still_running(a, fa) + still_running(b, fb),
        still_running(seq![w], seq![ended]) == if ended {
            Seq::<Worker>::empty()
        } else {
            seq![w]
        },
    decreases b.len(),
{
    let one = seq![w];
    assert(one.drop_last() =~= Seq::<Worker>::empty());
    reveal_with_fuel(still_running, 2);
    assert(still_running(one, seq![ended]) =~= if ended {
        Seq::<Worker>::empty()
    } else {
        seq![w]
    });
    if b.len() == 0 {
        assert(a + b =~= a);
        assert(fa + fb =~= fa);
        assert(still_running(a, fa) + still_running(b, fb) =~= still_running(a, fa));
    } else {
        law_workers_are_kept(a, b.drop_last(), fa, fb.drop_last(), w, ended);
        assert((a + b).drop_last() =~= a + b.drop_last());
        assert((fa + fb).drop_last() =~= fa + fb.drop_last());
        assert((a + b).last() == b.last());
        assert((fa + fb).last() == fb.last());
        assert(still_running(a + b, fa + fb) =~= still_running(a, fa) + still_running(b, fb));
    }
}

/// An analyser that was started has one more worker and is not tried again; one that could not be is
/// tried again, and the workers are what they were.
pub proof fn law_start_of_the_analyser(r: Readers)
    ensures
        !after_start(r, true).deferred,
        after_start(r, true).workers == r.workers.push(Worker::Cava),
        after_start(r, false).deferred,
        after_start(r, false).workers == r.workers,
{
}

/// What the main loop goes by is what the bridge holds, and settings that are the same are the same in
/// each.
pub proof fn law_bridge_parts(a: HybridBridge, b: HybridBridge)
    ensures
        a.readers().workers == a.workers@,
        a.readers().deferred == a.cava_deferred,
        a.same_settings(b) ==> a.device_format == b.device_format && a.cava_format == b.cava_format
            && a.spectrum_bars == b.spectrum_bars && a.mpd_update_interval_ns
            == b.mpd_update_interval_ns && a.sysinfo_interval_ns == b.sysinfo_interval_ns,
{
}

/// The workers have names of their own.
pub proof fn law_worker_names(a: Worker, b: Worker)
    ensures
        a.text() == b.text() <==> a == b,
{
    reveal_strlit("MPDCheckerThread");
    reveal_strlit("CAVAReaderThread");
    reveal_strlit("CommandProcessorThread");
    reveal_strlit("SysInfoThread");
    assert("MPDCheckerThread"@.len() == 16 && "CAVAReaderThread"@.len() == 16);
    assert("CommandProcessorThread"@.len() == 22 && "SysInfoThread"@.len() == 13);
    assert("MPDCheckerThread"@[0] == 'M' && "CAVAReaderThread"@[0] == 'C');
}

/// After a report every count starts at 0, from the time of the report, and the start of the bridge
/// stays what it was.
pub proof fn law_counts_start_anew(start: u64, now: u64)
    ensures
        ({
            let s = no_counts(start, now);
            &&& s.cava_frames == 0 && s.mpd_updates == 0 && s.sysinfo_updates == 0
            &&& s.bytes_sent == 0 && s.commands == 0
            &&& s.mpd_latency_total_ns == 0 && s.mpd_latency_max_ns == 0
            &&& s.last_report == now && s.start == start
        }),
{
}

// ---------------------------------------------------------------------------
// Commands
// ---------------------------------------------------------------------------

/// A message is a command exactly if it says so and has a content. An action of the settings is run by
/// its name, for every device.
pub proof fn law_command_steps(m: WireMessage, mpd: bool)
    ensures
        ({
            let step = command_step(m, mpd);
            &&& step is NoCommand <==> m.t@ != "cmd"@ || m.content is None
            &&& step matches CommandView::Exec(name) ==> {
                &&& m.content matches Some(c)
                &&& c.action@ == "exec"@
                &&& c.parameters matches Some(p)
                &&& p.name matches Some(n)
                &&& n@ == name
            }
            &&& m.t@ == "cmd"@ ==> (m.content matches Some(c) ==> (c.action@ == "exec"@ ==> (
            c.parameters matches Some(p) ==> (p.name matches Some(n) ==> step == CommandView::Exec(
                n@,
            )))))
            &&& step is Mpd ==> mpd && m.content is Some && m.content->0.action@ != "exec"@
        }),
{
}

/// A command other than an action of the settings goes to the player exactly if the bridge of the
/// player knows it, and the device uses the player.
pub proof fn law_player_gets_its_commands(
    m: WireMessage,
    bridge: MpdBridge,
    params: Option<Params>,
    now: u64,
)
    requires
        m.t@ == "cmd"@,
        m.content is Some,
        m.content->0.action@ != "exec"@,
        bridge.client,
    ensures
        ({
            let known = !(plan_of(bridge, m.content->0.action@, params, now) is Unknown);
            &&& command_step(m, true) is Mpd <==> known
            &&& command_step(m, false) is NotSupported <==> known
            &&& command_step(m, true) is Ignore <==> !known
            &&& command_step(m, false) is Ignore <==> !known
        }),
{
}

// ---------------------------------------------------------------------------
// Watching the player
// ---------------------------------------------------------------------------

/// A player that was never tried is tried at once, and one that was tried is tried again exactly if
/// five seconds have gone by.
pub proof fn law_tries(last: u64, now: u64)
    requires
        last <= now,
    ensures
        retry_allowed(None, now),
        retry_allowed(Some(last), now) <==> now >= last + 5_000_000_000,
{
}

/// The first update is due at once, and every other exactly if the interval has gone by.
pub proof fn law_updates_are_due(last: u64, interval: u64, now: u64)
    requires
        last <= now,
    ensures
        update_due(None, interval, now),
        update_due(Some(last), interval, now) <==> now >= last + interval,
{
}

/// The rest before an update ends when the update is due, unless that would be within fifty
/// milliseconds: it is never shorter than these. With no update before, it is the whole interval.
pub proof fn law_rest_ends_when_due(last: u64, interval: u64, now: u64)
    requires
        last <= now,
        last + interval <= u64::MAX,
        !update_due(Some(last), interval, now),
    ensures
        ({
            let rest = rest_before(Some(last), interval, now);
            &&& rest >= 50_000_000
            &&& now + rest >= last + interval
            &&& rest > 50_000_000 ==> now + rest == last + interval
        }),
        ({
            let rest = rest_before(None, interval, now);
            &&& rest >= 50_000_000 && rest >= interval
            &&& rest > 50_000_000 ==> rest == interval
        }),
{
}

/// A new state is told exactly if both the one before and the new one are known and differ; what is
/// told names the one before and then the new one.
pub proof fn law_state_changes_are_told(prev: Seq<char>, cur: Seq<char>)
    ensures
        state_note(None, Some(cur)).len() == 0,
        state_note(Some(prev), None).len() == 0,
        state_note(None, None).len() == 0,
        prev == cur ==> state_note(Some(prev), Some(cur)).len() == 0,
        prev != cur ==> state_note(Some(prev), Some(cur)) == seq!["MPD: "@ + prev + "->"@ + cur],
{
}

/// A new title is told exactly if both the one before and the new one are known, they differ, and the
/// new one is not empty; what is told holds the new title, in quotes, up to thirty characters of it.
pub proof fn law_title_changes_are_told(prev: Seq<char>, cur: Seq<char>)
    ensures
        title_note(None, Some(cur)).len() == 0,
        title_note(Some(prev), None).len() == 0,
        title_note(None, None).len() == 0,
        title_note(Some(prev), Some(cur)).len() == 0 <==> prev == cur || cur.len() == 0,
        prev != cur && 0 < cur.len() <= 30 ==> title_note(Some(prev), Some(cur)) == seq![
            "MPD: track=\""@ + cur + "\""@,
        ],
        prev != cur && cur.len() > 30 ==> title_note(Some(prev), Some(cur)) == seq![
            "MPD: track=\""@ + cur.take(30) + "\""@,
        ],
{
}

/// A rest is taken in parts of a tenth of a second at most, and no part is empty or longer than what
/// remains.
pub proof fn law_rest_parts(remaining: u64)
    requires
        remaining > 0,
    ensures
        0 < rest_part(remaining) <= remaining,
        rest_part(remaining) <= 100_000_000,
        rest_part(remaining) == remaining || rest_part(remaining) == 100_000_000,
{
}

} // verus!
