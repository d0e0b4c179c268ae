//! What contracts see of a value is the value: each part of it under its own name.
use crate::action_runner::{ActionPlan, Dispatch, DispatchView};
use crate::bridge::{ArgsView, BridgeArgs};
use crate::cava_bridge::{SpectrumMessage, SpectrumView};
use crate::cava_manager::{ReadResult, ReadView};
use crate::config_manager::table_view;
use crate::cooldown::{one_each, table_of, CooldownEntry};
use crate::hybrid_bridge::{CommandStep, CommandView};
use crate::logger::{moves_view, Move};
use crate::mpd_bridge::{Plan, PlanView};
use crate::mpd_client::{fields, song_views, Line, LineView, Pair, Song};
use crate::serial_queue::{item_views, QueueItem};
use crate::sysinfo_bridge::SysinfoData;
use crate::text::{opt_view, views};
use crate::watcher::{env_views, ClearStep, ClearView, EnvVar};
use vstd::prelude::*;

verus! {

/// A list is seen item by item, in its order.
pub proof fn law_lists_are_seen(
    texts: Seq<String>,
    env: Seq<EnvVar>,
    moves: Seq<Move>,
    songs: Seq<Song>,
    items: Seq<QueueItem>,
    pairs: Seq<Pair>,
    table: Seq<(String, String)>,
    i: int,
)
    ensures
        views(texts).len() == texts.len(),
        0 <= i < texts.len() ==> views(texts)[i] == texts[i]@,
        env_views(env).len() == env.len(),
        0 <= i < env.len() ==> env_views(env)[i].0 == env[i].name@ && env_views(env)[i].1
            == env[i].value@,
        moves_view(moves).len() == moves.len(),
        0 <= i < moves.len() ==> moves_view(moves)[i].0 == moves[i].from@ && moves_view(moves)[i].1
            == moves[i].to@,
        song_views(songs).len() == songs.len(),
        0 <= i < songs.len() ==> song_views(songs)[i] == songs[i]@,
        item_views(items).len() == items.len(),
        0 <= i < items.len() ==> item_views(items)[i] == items[i]@,
        fields(pairs).len() == pairs.len(),
        0 <= i < pairs.len() ==> fields(pairs)[i].key == pairs[i].key@ && fields(pairs)[i].value
            == pairs[i].value@ && fields(pairs)[i].number == pairs[i].number,
        table_view(table).len() == table.len(),
        0 <= i < table.len() ==> table_view(table)[i].0 == table[i].0@ && table_view(table)[i].1
            == table[i].1@,
{
}

/// A text that may be missing is seen exactly if it is there.
pub proof fn law_missing_texts(o: Option<String>)
    ensures
        opt_view(o) is Some <==> o is Some,
        o matches Some(s) ==> opt_view(o) == Some(s@),
{
}

/// A song is seen with each of its tags.
pub proof fn law_song_is_seen(s: Song)
    ensures
        s@.file == s.file@,
        s@.title == opt_view(s.title) && s@.artist == opt_view(s.artist),
        s@.album == opt_view(s.album) && s@.genre == opt_view(s.genre),
        s@.date == opt_view(s.date) && s@.track == opt_view(s.track),
        s@.duration_s == s.duration_s,
{
}

/// What is told of the machine is seen with each of its values.
pub proof fn law_machine_is_seen(d: SysinfoData)
    ensures
        d@.cpu == d.cpu && d@.mem == d.mem && d@.disk == d.disk && d@.freq == d.freq && d@.up == d.up,
        d@.temp == opt_view(d.temp) && d@.load == opt_view(d.load) && d@.ip == opt_view(d.ip),
        d@.time == d.time@,
{
}

/// A message that waits is seen with its priority, its number and its bytes.
pub proof fn law_message_is_seen(q: QueueItem)
    ensures
        q@.priority == q.priority && q@.sequence == q.sequence && q@.data == q.data@,
{
}

/// A step is seen as what it is.
pub proof fn law_steps_are_seen(
    args: BridgeArgs,
    message: SpectrumMessage,
    read: ReadResult,
    step: CommandStep,
    plan: Plan,
    line: Line,
    clear: ClearStep,
    dispatch: Dispatch,
    action: ActionPlan,
)
    ensures
        match args {
            BridgeArgs::Usage => args@ == ArgsView::Usage,
            BridgeArgs::Version => args@ == ArgsView::Version,
            BridgeArgs::Run { bridge, device } => args@ == (ArgsView::Run {
                bridge,
                device: opt_view(device),
            }),
        },
        match message {
            SpectrumMessage::Binary { bars, header } => message@ == (SpectrumView::Binary {
                bars: bars@,
                header,
            }),
            SpectrumMessage::Json(s) => message@ == SpectrumView::Json(s@),
        },
        match read {
            ReadResult::Nothing => read@ == ReadView::Nothing,
            ReadResult::Frame(v) => read@ == ReadView::Frame(v@),
            ReadResult::Exited => read@ == ReadView::Exited,
        },
        match step {
            CommandStep::NoCommand => step@ == CommandView::NoCommand,
            CommandStep::Ignore => step@ == CommandView::Ignore,
            CommandStep::Exec(s) => step@ == CommandView::Exec(s@),
            CommandStep::Mpd => step@ == CommandView::Mpd,
            CommandStep::NotSupported => step@ == CommandView::NotSupported,
        },
        match plan {
            Plan::NoCommand => plan@ == PlanView::NoCommand,
            Plan::Nothing => plan@ == PlanView::Nothing,
            Plan::Exec(s) => plan@ == PlanView::Exec(s@),
            Plan::NotConnected => plan@ == PlanView::NotConnected,
            Plan::Unknown => plan@ == PlanView::Unknown,
            Plan::Send(v) => plan@ == PlanView::Send(v@),
            Plan::AskStatus(p) => plan@ == PlanView::AskStatus(p),
        },
        match line {
            Line::End => line@ == LineView::End,
            Line::Refused(m) => line@ == LineView::Refused(m@),
            Line::Field(k, v) => line@ == LineView::Field(k@, v@),
            Line::Other => line@ == LineView::Other,
        },
        match clear {
            ClearStep::Tell(s) => clear@ == ClearView::Tell(s@),
            ClearStep::Rest(ms) => clear@ == ClearView::Rest(ms),
            ClearStep::Kill(s) => clear@ == ClearView::Kill(s@),
            ClearStep::Remove(s) => clear@ == ClearView::Remove(s@),
        },
        match dispatch {
            Dispatch::Ignore => dispatch@ == DispatchView::Ignore,
            Dispatch::Unknown => dispatch@ == DispatchView::Unknown,
            Dispatch::Run(p) => dispatch@ == DispatchView::Run(p@),
        },
        action@.program == action.program@,
        action@.args == views(action.args@),
        action@.env == env_views(action.env@),
{
}

/// What is remembered of devices is seen as a table: each device that has an entry with what the entry
/// says, and no other.
pub proof fn law_entries_are_seen(entries: Seq<CooldownEntry>, path: Seq<char>)
    requires
        one_each(entries),
    ensures
        table_of(entries).contains_key(path) <==> exists|i: int|
            0 <= i < entries.len() && (#[trigger] entries[i]).path@ == path,
        forall|i: int|
            0 <= i < entries.len() && (#[trigger] entries[i]).path@ == path ==> table_of(entries)[path]
                == entries[i].cooldown,
    decreases entries.len(),
{
    if entries.len() > 0 {
        let d = entries.drop_last();
        let n = d.len() as int;
        assert forall|a: int, b: int| 0 <= a < b < d.len() implies (#[trigger] d[a]).path@ != (
        #[trigger] d[b]).path@ by {
            assert(d[a] == entries[a] && d[b] == entries[b]);
        }
        law_entries_are_seen(d, path);
        assert(entries[n] == entries.last());
        if d.len() > 0 && table_of(d).contains_key(path) {
            let i = choose|i: int| 0 <= i < d.len() && (#[trigger] d[i]).path@ == path;
            assert(entries[i].path@ == path);
        }
        assert forall|i: int| 0 <= i < entries.len() && (#[trigger] entries[i]).path@
            == path implies table_of(entries)[path] == entries[i].cooldown && table_of(
            entries,
        ).contains_key(path) by {
            if i < n {
                assert(d[i].path@ == path);
                assert(entries[i].path@ != entries[n].path@);
            }
        }
    }
}

} // verus!
