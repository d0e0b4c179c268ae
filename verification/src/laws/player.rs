//! What holds of the music player: what the device shows of it, and what its keys do.
use crate::mpd_bridge::{
    cache_after, command_for, hhmmss, mmss, plan_of, state_members, MpdBridge, Params, PlanView,
    VolumeParam,
};
use crate::mpd_client::{Command, SongView, State, Status};
use crate::text::{all_digits, dec, dec2, digits_value, law_dec_round_trip, law_dec_value, parse_int};
use vstd::prelude::*;
use vstd::string::*;

verus! {

// ---------------------------------------------------------------------------
// Times
// ---------------------------------------------------------------------------

proof fn lemma_dec2(n: nat)
    ensures
        dec2(n).len() >= 2,
        n < 100 ==> dec2(n).len() == 2,
        all_digits(dec2(n)),
        digits_value(dec2(n)) == n,
{
    law_dec_value(n);
    if n < 10 {
        let s = dec2(n);
        assert(s.drop_last() =~= seq!['0']);
        assert(s.drop_last().drop_last() =~= Seq::<char>::empty());
        reveal_with_fuel(digits_value, 3);
        assert(s[0] == '0' && s[1] == dec(n)[0]);
        assert(s.len() == 2);
    } else {
        law_dec_value(n / 10);
        assert(dec(n).len() == dec(n / 10).len() + 1);
        if n < 100 {
            assert(dec(n / 10).len() == 1);
        }
    }
}

/// A time in minutes and seconds is read back: the seconds are the two digits behind the colon, fewer
/// than sixty, and the digits before it are the minutes.
pub proof fn law_minutes_and_seconds(seconds: u32)
    ensures
        ({
            let t = mmss(seconds);
            let n = t.len() as int;
            &&& n >= 5
            &&& t[n - 3] == ':'
            &&& all_digits(t.take(n - 3)) && all_digits(t.skip(n - 2))
            &&& digits_value(t.skip(n - 2)) < 60
            &&& digits_value(t.take(n - 3)) * 60 + digits_value(t.skip(n - 2)) == seconds
        }),
{
    let t = mmss(seconds);
    let n = t.len() as int;
    reveal_strlit(":");
    let a = (seconds / 60) as nat;
    let b = (seconds % 60) as nat;
    lemma_dec2(a);
    lemma_dec2(b);
    assert(t.take(n - 3) =~= dec2(a));
    assert(t.skip(n - 2) =~= dec2(b));
}

/// A time in hours, minutes and seconds is read back in the same way.
pub proof fn law_hours_minutes_and_seconds(seconds: u32)
    ensures
        ({
            let t = hhmmss(seconds);
            let n = t.len() as int;
            let h = t.take(n - 6);
            let m = t.subrange(n - 5, n - 3);
            let s = t.skip(n - 2);
            &&& n >= 8
            &&& t[n - 3] == ':' && t[n - 6] == ':'
            &&& all_digits(h) && all_digits(m) && all_digits(s)
            &&& digits_value(m) < 60 && digits_value(s) < 60
            &&& digits_value(h) * 3600 + digits_value(m) * 60 + digits_value(s) == seconds
        }),
{
    let t = hhmmss(seconds);
    let n = t.len() as int;
    reveal_strlit(":");
    let a = (seconds / 3600) as nat;
    let b = ((seconds % 3600) / 60) as nat;
    let c = (seconds % 60) as nat;
    lemma_dec2(a);
    lemma_dec2(b);
    lemma_dec2(c);
    assert(t.take(n - 6) =~= dec2(a));
    assert(t.subrange(n - 5, n - 3) =~= dec2(b));
    assert(t.skip(n - 2) =~= dec2(c));
}

// ---------------------------------------------------------------------------
// What the device shows
// ---------------------------------------------------------------------------

/// The device can tell a player that plays from one that pauses and from one that has stopped: the
/// member `state` is P, U or S, one for each of the three.
pub proof fn law_state_is_shown(status: Status, total: u32, known: Option<SongView>)
    ensures
        ({
            let m = state_members(status, total, known);
            &&& m[0].0 == "state"@
            &&& m[0].1 == "P"@ <==> status.state == State::Play
            &&& m[0].1 == "U"@ <==> status.state == State::Pause
            &&& m[0].1 == "S"@ <==> status.state == State::Stop
        }),
{
    lemma_letters();
}

proof fn lemma_letters()
    ensures
        "P"@ != "U"@,
        "P"@ != "S"@,
        "U"@ != "S"@,
        "1"@ != "0"@,
{
    reveal_strlit("P");
    reveal_strlit("U");
    reveal_strlit("S");
    reveal_strlit("1");
    reveal_strlit("0");
    assert("P"@[0] != "U"@[0] && "P"@[0] != "S"@[0] && "U"@[0] != "S"@[0]);
    assert("1"@[0] != "0"@[0]);
}

/// Players in different states are shown by different letters.
pub proof fn law_states_are_told_apart(a: Status, b: Status, total: u32, known: Option<SongView>)
    ensures
        state_members(a, total, known)[0].1 == state_members(b, total, known)[0].1 <==> a.state
            == b.state,
{
    lemma_letters();
}

/// The numbers that the device shows are those of the status: the volume, the number of the song, its
/// place in the queue, counted from 1, and the number of songs. A number or a place that is not known
/// is shown as 0.
pub proof fn law_numbers_are_shown(status: Status, total: u32, known: Option<SongView>)
    ensures
        ({
            let m = state_members(status, total, known);
            &&& m[1].0 == "volume"@ && parse_int(m[1].1) == Some(status.volume as int)
            &&& m[4].0 == "song_id"@
            &&& status.song_id matches Some(id) ==> (id >= 0 ==> parse_int(m[4].1) == Some(id as int))
            &&& (status.song_id is None || status.song_id->0 < 0) ==> parse_int(m[4].1) == Some(0int)
            &&& m[6].0 == "playlist_position"@
            &&& status.song_pos matches Some(p) ==> (p >= 0 ==> parse_int(m[6].1) == Some(p + 1))
            &&& (status.song_pos is None || status.song_pos->0 < 0) ==> parse_int(m[6].1) == Some(
                0int,
            )
            &&& m[7].0 == "playlist_length"@ && parse_int(m[7].1) == Some(status.queue_len as int)
        }),
{
    law_dec_round_trip(status.volume as int);
    law_dec_round_trip(status.queue_len as int);
    law_dec_round_trip(0);
    if let Some(id) = status.song_id {
        law_dec_round_trip(id as int);
    }
    if let Some(p) = status.song_pos {
        law_dec_round_trip(p + 1);
    }
    reveal_strlit("0");
    assert("0"@ =~= dec(0));
}

/// The times that the device shows are those of the status, in whole seconds, and the length of the
/// queue.
pub proof fn law_times_are_shown(status: Status, total: u32, known: Option<SongView>)
    requires
        status.elapsed_ms / 1000 <= u32::MAX,
    ensures
        ({
            let m = state_members(status, total, known);
            let e = m[2].1;
            let t = m[3].1;
            let q = m[8].1;
            let en = e.len() as int;
            let tn = t.len() as int;
            let qn = q.len() as int;
            let shown = digits_value(e.take(en - 3)) * 60 + digits_value(e.skip(en - 2));
            &&& m[2].0 == "elapsed"@ && shown * 1000 <= status.elapsed_ms < (shown + 1) * 1000
            &&& m[3].0 == "total"@ && digits_value(t.take(tn - 3)) * 60 + digits_value(
                t.skip(tn - 2),
            ) == status.duration_s
            &&& m[8].0 == "playlist_total_time"@ && digits_value(q.take(qn - 6)) * 3600
                + digits_value(q.subrange(qn - 5, qn - 3)) * 60 + digits_value(q.skip(qn - 2)) == total
        }),
{
    law_minutes_and_seconds((status.elapsed_ms / 1000) as u32);
    law_minutes_and_seconds(status.duration_s);
    law_hours_minutes_and_seconds(total);
}

/// Each of the four modes of the player has its own mark, which is 1 exactly if the mode is on and 0
/// exactly if it is off.
pub proof fn law_modes_are_shown(status: Status, total: u32, known: Option<SongView>)
    ensures
        ({
            let m = state_members(status, total, known);
            &&& m.len() == 19
            &&& m[15].0 == "repeat"@ && m[16].0 == "random"@ && m[17].0 == "single"@ && m[18].0
                == "consume"@
            &&& (m[15].1 == "1"@ <==> status.repeat) && (m[15].1 == "0"@ <==> !status.repeat)
            &&& (m[16].1 == "1"@ <==> status.random) && (m[16].1 == "0"@ <==> !status.random)
            &&& (m[17].1 == "1"@ <==> status.single) && (m[17].1 == "0"@ <==> !status.single)
            &&& (m[18].1 == "1"@ <==> status.consume) && (m[18].1 == "0"@ <==> !status.consume)
        }),
{
    lemma_letters();
}

/// The tags of the song are shown as they are, each under its own name, as long as the player has not
/// stopped; `Unknown` stands for a tag that the song lacks.
pub proof fn law_tags_are_shown(status: Status, total: u32, song: SongView)
    requires
        status.state != State::Stop,
    ensures
        ({
            let m = state_members(status, total, Some(song));
            &&& m[9].0 == "title"@ && m[10].0 == "artist"@ && m[11].0 == "album"@ && m[12].0
                == "genre"@ && m[13].0 == "year"@
            &&& song.title matches Some(t) ==> (t != "Unknown"@ ==> m[9].1 == t)
            &&& song.artist matches Some(t) ==> m[10].1 == t
            &&& song.album matches Some(t) ==> m[11].1 == t
            &&& song.genre matches Some(t) ==> m[12].1 == t
            &&& song.date matches Some(t) ==> m[13].1 == t
            &&& song.artist is None ==> m[10].1 == "Unknown"@
            &&& song.album is None ==> m[11].1 == "Unknown"@
            &&& song.genre is None ==> m[12].1 == "Unknown"@
            &&& song.date is None ==> m[13].1 == "Unknown"@
        }),
{
}

/// Where no song is known, or the player has stopped, everything that a song could tell is `Unknown`,
/// and the number of its track is 0.
pub proof fn law_no_song_is_unknown(status: Status, total: u32, known: Option<SongView>)
    requires
        known is None || status.state == State::Stop,
    ensures
        ({
            let m = state_members(status, total, known);
            &&& m[5] == ("track_number"@, "0"@)
            &&& forall|i: int| 9 <= i < 15 ==> (#[trigger] m[i]).1 == "Unknown"@
            &&& m[14].0 == "file_type"@
        }),
{
}

// ---------------------------------------------------------------------------
// The keys of the device
// ---------------------------------------------------------------------------

/// The one request that goes to the player for a command of the device, once its status is known.
pub open spec fn sole_request(
    bridge: MpdBridge,
    action: Seq<char>,
    params: Option<Params>,
    now: u64,
    status: Status,
) -> Option<Command> {
    match plan_of(bridge, action, params, now) {
        PlanView::AskStatus(pending) => Some(command_for(pending, status)),
        PlanView::Send(commands) => if commands.len() == 1 {
            Some(commands[0])
        } else {
            None
        },
        _ => None,
    }
}

/// A volume held between 0 and 100.
pub open spec fn held(volume: int) -> int {
    if volume < 0 {
        0
    } else if volume > 100 {
        100
    } else {
        volume
    }
}

proof fn lemma_actions_differ()
    ensures
        "exec"@.len() == 4 && "next"@.len() == 4 && "stop"@.len() == 4,
        "exec"@[0] == 'e' && "next"@[0] == 'n' && "stop"@[0] == 's',
        "play_pause"@.len() == 10 && "set_volume"@.len() == 10,
        "play_pause"@[0] == 'p' && "set_volume"@[0] == 's',
        "previous"@.len() == 8 && "volume_up"@.len() == 9 && "volume_down"@.len() == 11,
        "repeat"@.len() == 6 && "single"@.len() == 6 && "random"@.len() == 6,
        "repeat"@[0] == 'r' && "single"@[0] == 's' && "random"@[0] == 'r',
        "repeat"@[1] == 'e' && "random"@[1] == 'a',
        "consume"@.len() == 7,
{
    reveal_strlit("exec");
    reveal_strlit("next");
    reveal_strlit("stop");
    reveal_strlit("play_pause");
    reveal_strlit("set_volume");
    reveal_strlit("previous");
    reveal_strlit("volume_up");
    reveal_strlit("volume_down");
    reveal_strlit("repeat");
    reveal_strlit("single");
    reveal_strlit("random");
    reveal_strlit("consume");
}

/// The key that raises the volume never asks for one below that of the player, and the key that
/// lowers it never for one above. Within 0 and 100 the step is ten; at either end it is what is left.
pub proof fn law_volume_keys(bridge: MpdBridge, params: Option<Params>, now: u64, status: Status)
    requires
        bridge.client,
    ensures
        ({
            let up = sole_request(bridge, "volume_up"@, params, now, status);
            let down = sole_request(bridge, "volume_down"@, params, now, status);
            let v = status.volume as int;
            &&& up matches Some(Command::SetVolume(u)) && {
                &&& held(v) <= u <= 100
                &&& 0 <= v + 10 <= 100 ==> u == v + 10
                &&& v + 10 > 100 ==> u == 100
            }
            &&& down matches Some(Command::SetVolume(d)) && {
                &&& 0 <= d <= held(v)
                &&& 0 <= v - 10 <= 100 ==> d == v - 10
                &&& v - 10 < 0 ==> d == 0
            }
        }),
{
    lemma_actions_differ();
}

/// A step up and a step down again lead back to the volume, as long as neither end is reached.
pub proof fn law_volume_keys_undo(
    bridge: MpdBridge,
    params: Option<Params>,
    now: u64,
    status: Status,
    after: Status,
)
    requires
        bridge.client,
        0 <= status.volume <= 90,
        sole_request(bridge, "volume_up"@, params, now, status) == Some(
            Command::SetVolume(after.volume),
        ),
    ensures
        after.volume > status.volume,
        sole_request(bridge, "volume_down"@, params, now, after) == Some(
            Command::SetVolume(status.volume),
        ),
{
    lemma_actions_differ();
}

/// The key of a mode asks for the mode that the player is not in, and for no other mode.
pub proof fn law_mode_keys(bridge: MpdBridge, params: Option<Params>, now: u64, status: Status)
    requires
        bridge.client,
    ensures
        sole_request(bridge, "repeat"@, params, now, status) == Some(
            Command::SetRepeat(!status.repeat),
        ),
        sole_request(bridge, "random"@, params, now, status) == Some(
            Command::SetRandom(!status.random),
        ),
        sole_request(bridge, "single"@, params, now, status) == Some(
            Command::SetSingle(!status.single),
        ),
        sole_request(bridge, "consume"@, params, now, status) == Some(
            Command::SetConsume(!status.consume),
        ),
{
    lemma_actions_differ();
}

/// The key for play and pause starts a player that has stopped, pauses one that plays and resumes one
/// that pauses. The key for the next song asks for it.
pub proof fn law_play_keys(bridge: MpdBridge, params: Option<Params>, now: u64, status: Status)
    requires
        bridge.client,
    ensures
        ({
            let r = sole_request(bridge, "play_pause"@, params, now, status);
            &&& r == Some(Command::Play) <==> status.state == State::Stop
            &&& r == Some(Command::Pause(true)) <==> status.state == State::Play
            &&& r == Some(Command::Pause(false)) <==> status.state == State::Pause
        }),
        sole_request(bridge, "next"@, params, now, status) == Some(Command::Next),
{
    lemma_actions_differ();
}

/// The key for the previous song goes back to the beginning of a song of which more than two seconds
/// were played, unless the player is known to have stopped, and otherwise to the song before it.
pub proof fn law_previous_key(bridge: MpdBridge, params: Option<Params>, now: u64, status: Status)
    requires
        bridge.client,
    ensures
        ({
            let r = sole_request(bridge, "previous"@, params, now, status);
            &&& r == Some(Command::SeekCurrent(0)) || r == Some(Command::Previous)
            &&& r == Some(Command::SeekCurrent(0)) <==> bridge.cache.elapsed_ms > 2000
                && bridge.cache.state != Some(State::Stop)
        }),
{
    lemma_actions_differ();
}

/// A second stop goes back to the first song exactly if it comes within three seconds of the first;
/// the player is told to stop in either case.
pub proof fn law_stop_window(bridge: MpdBridge, params: Option<Params>, first: u64, second: u64)
    requires
        bridge.client,
        bridge.cache.stop_count == 0,
        first <= second,
    ensures
        ({
            let one = MpdBridge { cache: cache_after(bridge, "stop"@, first), ..bridge };
            &&& plan_of(bridge, "stop"@, params, first) == PlanView::Send(seq![Command::Stop])
            &&& plan_of(one, "stop"@, params, second) matches PlanView::Send(commands)
            &&& commands.last() == Command::Stop
            &&& commands == seq![Command::PlayPos(0), Command::Stop] <==> second - first
                <= 3_000_000_000
            &&& commands.len() == 1 <==> second - first > 3_000_000_000
        }),
{
    lemma_actions_differ();
}

/// What the bridge remembers changes with a stop that reaches the player, and with no other command.
pub proof fn law_only_stops_are_remembered(bridge: MpdBridge, action: Seq<char>, now: u64)
    ensures
        action != "stop"@ || !bridge.client ==> cache_after(bridge, action, now) == bridge.cache,
        ({
            let c = cache_after(bridge, action, now);
            &&& c.playlist_time == bridge.cache.playlist_time
            &&& c.playlist_length == bridge.cache.playlist_length
            &&& c.elapsed_ms == bridge.cache.elapsed_ms
            &&& c.state == bridge.cache.state
            &&& c.mpd_connected == bridge.cache.mpd_connected
            &&& c.mpd_error_logged == bridge.cache.mpd_error_logged
        }),
{
}

/// The commands that the bridge knows, with a connection: the twelve that it names.
pub proof fn law_known_commands(
    bridge: MpdBridge,
    action: Seq<char>,
    params: Option<Params>,
    now: u64,
)
    requires
        bridge.client,
    ensures
        plan_of(bridge, action, params, now) is Unknown <==> {
            &&& action != "exec"@ && action != "play_pause"@ && action != "next"@ && action
                != "previous"@
            &&& action != "stop"@ && action != "volume_up"@ && action != "volume_down"@ && action
                != "set_volume"@
            &&& action != "repeat"@ && action != "single"@ && action != "consume"@ && action
                != "random"@
        },
        !(plan_of(bridge, action, params, now) is NotConnected),
{
}

/// An action of the settings is run by its name, with a connection to the player or without one; one
/// without a name leads to nothing. No other command runs an action.
pub proof fn law_actions_need_no_player(
    bridge: MpdBridge,
    action: Seq<char>,
    params: Option<Params>,
    now: u64,
)
    ensures
        ({
            let plan = plan_of(bridge, "exec"@, params, now);
            let name = match params {
                Some(p) => p.name,
                None => None,
            };
            &&& name matches Some(n) ==> plan == PlanView::Exec(n@)
            &&& name is None ==> plan is Nothing
        }),
        plan_of(bridge, action, params, now) is Exec ==> action == "exec"@,
        action != "exec"@ && !bridge.client ==> plan_of(bridge, action, params, now)
            is NotConnected,
{
}

/// The volume that a command sets is the one it asks for, up to 100; a negative one lowers the volume
/// of the player by as much, down to 0.
pub proof fn law_volume_is_set(
    bridge: MpdBridge,
    name: Option<String>,
    n: i64,
    now: u64,
    status: Status,
)
    requires
        bridge.client,
        i32::MIN <= n <= i32::MAX,
    ensures
        ({
            let params = Params { name, volume: Some(VolumeParam::Number(Some(n))) };
            let plan = plan_of(bridge, "set_volume"@, Some(params), now);
            &&& sole_request(bridge, "set_volume"@, Some(params), now, status) matches Some(
                Command::SetVolume(v),
            )
            &&& n >= 0 ==> plan is Send && v == held(n as int)
            &&& n < 0 ==> plan is AskStatus && v == held(status.volume + n)
        }),
{
    lemma_actions_differ();
}

/// A volume may be given as a number or as the text of one: both lead to the same. A text that is no
/// number means 0, and a command that gives no volume leads to nothing.
pub proof fn law_volume_as_text(bridge: MpdBridge, name: Option<String>, text: String, now: u64)
    requires
        bridge.client,
    ensures
        ({
            let t = Params { name, volume: Some(VolumeParam::Text(text)) };
            let zero = Params { name, volume: Some(VolumeParam::Number(Some(0))) };
            let plan = plan_of(bridge, "set_volume"@, Some(t), now);
            &&& parse_int(text@) matches Some(n) ==> (i32::MIN <= n <= i32::MAX ==> plan == plan_of(
                bridge,
                "set_volume"@,
                Some(Params { name, volume: Some(VolumeParam::Number(Some(n as i64))) }),
                now,
            ))
            &&& parse_int(text@) is None ==> plan == plan_of(
                bridge,
                "set_volume"@,
                Some(zero),
                now,
            )
            &&& plan_of(
                bridge,
                "set_volume"@,
                Some(Params { name, volume: Some(VolumeParam::Number(None)) }),
                now,
            ) == plan_of(bridge, "set_volume"@, Some(zero), now)
        }),
        plan_of(bridge, "set_volume"@, None, now) is Nothing,
        plan_of(bridge, "set_volume"@, Some(Params { name, volume: None }), now) is Nothing,
        plan_of(
            bridge,
            "set_volume"@,
            Some(Params { name, volume: Some(VolumeParam::Other) }),
            now,
        ) is Nothing,
{
    lemma_actions_differ();
}

} // verus!
