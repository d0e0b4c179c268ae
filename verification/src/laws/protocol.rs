//! What holds of the talk with the music player: requests, replies, and what is made of them.
use crate::error::{McubError, McubResult};
use crate::mpd_bridge::{
    mpd_step, state_members, total_length, track_number, MpdBridge, MpdEvent, MpdStep, StateStep,
};
use crate::mpd_client::{
    distinct_keys, field_table, last_field, law_field_table, line_of, queue_of, song_groups, song_of, status_of, volume_within,
    Command, LineView, PairView, Song, SongView, State, Status,
};
use crate::pieces::{
    contains_text, first_at, lemma_split_first, lemma_last_place, occurs_at, starts_with,
    without_line_end,
};
use crate::text::{
    all_digits, dec, is_digit, law_dec_round_trip, law_dec_value, nat_within, parse_int, upper,
};
use vstd::prelude::*;
use vstd::string::*;

verus! {

// ---------------------------------------------------------------------------
// Requests
// ---------------------------------------------------------------------------

/// A request is a word of the protocol; one that carries a number or a switch has it behind a blank,
/// and it is read back from there.
pub proof fn law_request_words(c: Command)
    ensures
        ({
            let t = c.text();
            match c {
                Command::Status => t == "status"@,
                Command::CurrentSong => t == "currentsong"@,
                Command::PlaylistInfo => t == "playlistinfo"@,
                Command::Play => t == "play"@,
                Command::Stop => t == "stop"@,
                Command::Next => t == "next"@,
                Command::Previous => t == "previous"@,
                Command::TogglePause => t == "pause"@,
                Command::Pause(on) => starts_with(t, "pause "@) && carries_switch(t.skip(6), on),
                Command::PlayPos(n) => starts_with(t, "play "@) && parse_int(t.skip(5)) == Some(
                    n as int,
                ),
                Command::SeekCurrent(n) => starts_with(t, "seekcur "@) && parse_int(t.skip(8))
                    == Some(n as int),
                Command::SetVolume(v) => starts_with(t, "setvol "@) && parse_int(t.skip(7)) == Some(
                    v as int,
                ),
                Command::SetRepeat(on) => starts_with(t, "repeat "@) && carries_switch(t.skip(7), on),
                Command::SetRandom(on) => starts_with(t, "random "@) && carries_switch(t.skip(7), on),
                Command::SetSingle(on) => starts_with(t, "single "@) && carries_switch(t.skip(7), on),
                Command::SetConsume(on) => starts_with(t, "consume "@) && carries_switch(
                    t.skip(8),
                    on,
                ),
            }
        }),
{
    let t = c.text();
    reveal_strlit("pause ");
    reveal_strlit("play ");
    reveal_strlit("seekcur ");
    reveal_strlit("setvol ");
    reveal_strlit("repeat ");
    reveal_strlit("random ");
    reveal_strlit("single ");
    reveal_strlit("consume ");
    reveal_strlit("1");
    reveal_strlit("0");
    match c {
        Command::Pause(_) => {
            assert(t.subrange(0, 6) =~= "pause "@);
        },
        Command::PlayPos(n) => {
            law_dec_round_trip(n as int);
            assert(t.subrange(0, 5) =~= "play "@);
            assert(t.skip(5) =~= crate::text::dec_int(n as int));
        },
        Command::SeekCurrent(n) => {
            law_dec_round_trip(n as int);
            assert(t.subrange(0, 8) =~= "seekcur "@);
            assert(t.skip(8) =~= crate::text::dec_int(n as int));
        },
        Command::SetVolume(n) => {
            law_dec_round_trip(n as int);
            assert(t.subrange(0, 7) =~= "setvol "@);
            assert(t.skip(7) =~= crate::text::dec_int(n as int));
        },
        Command::SetRepeat(_) => {
            assert(t.subrange(0, 7) =~= "repeat "@);
        },
        Command::SetRandom(_) => {
            assert(t.subrange(0, 7) =~= "random "@);
        },
        Command::SetSingle(_) => {
            assert(t.subrange(0, 7) =~= "single "@);
        },
        Command::SetConsume(_) => {
            assert(t.subrange(0, 8) =~= "consume "@);
        },
        _ => {},
    }
}

/// The text is the digit 1 for a switch that is on, and the digit 0 for one that is off.
pub open spec fn carries_switch(text: Seq<char>, on: bool) -> bool {
    text.len() == 1 && (text[0] == '1' <==> on) && (text[0] == '0' <==> !on)
}

/// A volume that lies between 0 and 100 is asked for as it is; any other is moved to the nearer end,
/// so that a larger one never leads to a smaller.
pub proof fn law_volume_is_held(a: int, b: int)
    ensures
        0 <= volume_within(a) <= 100,
        0 <= a <= 100 ==> volume_within(a) == a,
        a <= b ==> volume_within(a) <= volume_within(b),
        a > 100 ==> volume_within(a) == 100,
{
}

// ---------------------------------------------------------------------------
// Lines of a reply
// ---------------------------------------------------------------------------

proof fn lemma_without_end(s: Seq<char>, end: Seq<char>)
    requires
        s.len() == 0 || (s.last() != '\r' && s.last() != '\n'),
        forall|i: int| 0 <= i < end.len() ==> (#[trigger] end[i] == '\r' || end[i] == '\n'),
    ensures
        without_line_end(s + end) == s,
    decreases end.len(),
{
    if end.len() == 0 {
        assert(s + end =~= s);
    } else {
        let t = end.drop_last();
        assert forall|i: int| 0 <= i < t.len() implies (#[trigger] t[i] == '\r' || t[i] == '\n') by {
            assert(t[i] == end[i]);
        }
        lemma_without_end(s, t);
        assert((s + end).last() == end[end.len() - 1]);
        assert((s + end).drop_last() =~= s + t);
    }
}

/// A line `key: value` is the field with this key and this value, whatever ends the line; the value
/// may hold colons.
pub proof fn law_field_line(key: Seq<char>, value: Seq<char>, end: Seq<char>)
    requires
        !contains_text(key, ": "@),
        !starts_with(key + ": "@ + value, "ACK "@),
        value.len() > 0 && value.last() != '\r' && value.last() != '\n',
        forall|i: int| 0 <= i < end.len() ==> (#[trigger] end[i] == '\r' || end[i] == '\n'),
    ensures
        line_of(key + ": "@ + value + end) == LineView::Field(key, value),
{
    reveal_strlit(": ");
    reveal_strlit("OK");
    let s = key + ": "@ + value;
    let n = key.len() as int;
    assert(s.last() == value.last());
    lemma_without_end(s, end);
    assert(s[n] == ':' && s[n + 1] == ' ');
    if s == "OK"@ {
        assert(s[n] == "OK"@[n]);
        assert("OK"@[0] == 'O' && "OK"@[1] == 'K');
    }
    assert(s.subrange(n, n + 2) =~= ": "@);
    assert(occurs_at(s, ": "@, n));
    assert forall|j: int| j < n implies !occurs_at(s, ": "@, j) by {
        if occurs_at(s, ": "@, j) {
            let t = s.subrange(j, j + 2);
            assert(t[0] == s[j] && t[1] == s[j + 1]);
            assert(s[j] == ':' && s[j + 1] == ' ');
            if j + 2 <= n {
                assert(key.subrange(j, j + 2) =~= ": "@);
                assert(occurs_at(key, ": "@, j));
            } else {
                assert(s[n] == ':');
            }
        }
    }
    assert(first_at(s, ": "@, n));
    lemma_split_first(s, ": "@, n);
    assert(s.take(n) =~= key);
    assert(s.skip(n + 2) =~= value);
}

/// A line `OK` ends the reply, and a line that begins with `ACK ` refuses the request, for the reason
/// behind it.
pub proof fn law_end_lines(reason: Seq<char>, end: Seq<char>)
    requires
        reason.len() > 0 ==> reason.last() != '\r' && reason.last() != '\n',
        forall|i: int| 0 <= i < end.len() ==> (#[trigger] end[i] == '\r' || end[i] == '\n'),
    ensures
        line_of("OK"@ + end) == LineView::End,
        line_of("ACK "@ + reason + end) == LineView::Refused(reason),
{
    reveal_strlit("OK");
    reveal_strlit("ACK ");
    lemma_without_end("OK"@, end);
    let s = "ACK "@ + reason;
    if reason.len() > 0 {
        assert(s.last() == reason.last());
    } else {
        assert(s =~= "ACK "@);
    }
    lemma_without_end(s, end);
    assert(s[0] == 'A');
    assert("OK"@[0] == 'O');
    assert(s.subrange(0, 4) =~= "ACK "@);
    assert(s.skip(4) =~= reason);
}

// ---------------------------------------------------------------------------
// Status
// ---------------------------------------------------------------------------

/// The state of the player is the one that the reply names; what is neither `play` nor `pause` means
/// that it has stopped.
pub proof fn law_state_names(s: Seq<char>)
    ensures
        State::named(s) == State::Play <==> s == "play"@,
        State::named(s) == State::Pause <==> s == "pause"@,
        State::named(s) == State::Stop <==> s != "play"@ && s != "pause"@,
{
    lemma_state_words();
}

proof fn lemma_state_words()
    ensures
        "play"@ != "pause"@,
{
    reveal_strlit("play");
    reveal_strlit("pause");
    assert("play"@.len() != "pause"@.len());
}

proof fn lemma_status_keys()
    ensures
        "state"@.len() == 5 && "state"@[0] == 's',
        "volume"@.len() == 6 && "volume"@[0] == 'v',
        "elapsed"@.len() == 7 && "elapsed"@[0] == 'e',
        "duration"@.len() == 8,
        "time"@.len() == 4 && "time"@[0] == 't',
        "song"@.len() == 4 && "song"@[0] == 's',
        "songid"@.len() == 6 && "songid"@[0] == 's' && "songid"@[1] == 'o',
        "playlistlength"@.len() == 14,
        "repeat"@.len() == 6 && "repeat"@[0] == 'r' && "repeat"@[1] == 'e',
        "random"@.len() == 6 && "random"@[0] == 'r' && "random"@[1] == 'a',
        "single"@.len() == 6 && "single"@[0] == 's' && "single"@[1] == 'i',
        "consume"@.len() == 7 && "consume"@[0] == 'c',
        "1"@.len() == 1 && "0"@.len() == 1 && "1"@[0] == '1' && "0"@[0] == '0',
{
    reveal_strlit("state");
    reveal_strlit("volume");
    reveal_strlit("elapsed");
    reveal_strlit("duration");
    reveal_strlit("time");
    reveal_strlit("song");
    reveal_strlit("songid");
    reveal_strlit("playlistlength");
    reveal_strlit("repeat");
    reveal_strlit("random");
    reveal_strlit("single");
    reveal_strlit("consume");
    reveal_strlit("1");
    reveal_strlit("0");
}

/// One more field changes what it names of the status, and nothing else: the last field of a key
/// counts. A number that cannot be read means 0, or that there is none.
pub proof fn law_status_field(before: Seq<PairView>, p: PairView)
    ensures
        ({
            let a = status_of(before);
            let b = status_of(before.push(p));
            let n = match parse_int(p.value) {
                Some(n) if i32::MIN <= n <= i32::MAX => Some(n as i32),
                _ => None,
            };
            &&& b.state == if p.key == "state"@ {
                State::named(p.value)
            } else {
                a.state
            }
            &&& p.key == "volume"@ ==> b.volume == (if n is Some { n->0 } else { 0 })
            &&& p.key != "volume"@ ==> b.volume == a.volume
            &&& p.key == "elapsed"@ ==> b.elapsed_ms == p.number.millis
            &&& p.key != "elapsed"@ ==> b.elapsed_ms == a.elapsed_ms
            &&& p.key == "song"@ ==> b.song_pos == n
            &&& p.key != "song"@ ==> b.song_pos == a.song_pos
            &&& p.key == "songid"@ ==> b.song_id == n
            &&& p.key != "songid"@ ==> b.song_id == a.song_id
            &&& p.key == "playlistlength"@ ==> b.queue_len == (if n is Some { n->0 } else { 0 })
            &&& p.key != "playlistlength"@ ==> b.queue_len == a.queue_len
            &&& p.key == "repeat"@ ==> (b.repeat <==> p.value == "1"@)
            &&& p.key != "repeat"@ ==> b.repeat == a.repeat
            &&& p.key == "random"@ ==> (b.random <==> p.value == "1"@)
            &&& p.key != "random"@ ==> b.random == a.random
            &&& p.key == "single"@ ==> (b.single <==> p.value != "0"@)
            &&& p.key != "single"@ ==> b.single == a.single
            &&& p.key == "consume"@ ==> (b.consume <==> p.value != "0"@)
            &&& p.key != "consume"@ ==> b.consume == a.consume
            &&& p.key == "duration"@ ==> b.duration_s == (if p.number.secs is Some {
                p.number.secs->0
            } else {
                0
            })
            &&& p.key != "duration"@ && p.key != "time"@ ==> b.duration_s == a.duration_s
        }),
{
    lemma_status_keys();
    assert(before.push(p).drop_last() =~= before);
    assert(before.push(p).last() == p);
}

/// A player that says nothing has stopped, is silent, and has no songs.
pub proof fn law_empty_status()
    ensures
        ({
            let s = status_of(Seq::empty());
            &&& s.state == State::Stop && s.volume == 0 && s.elapsed_ms == 0 && s.duration_s == 0
            &&& s.song_pos is None && s.song_id is None && s.queue_len == 0
            &&& !s.repeat && !s.random && !s.single && !s.consume
            &&& s == Status::silent()
        }),
{
}

// ---------------------------------------------------------------------------
// Songs
// ---------------------------------------------------------------------------

proof fn lemma_song_keys()
    ensures
        "file"@.len() == 4 && "file"@[0] == 'f',
        "Title"@.len() == 5 && "Title"@[0] == 'T',
        "Artist"@.len() == 6,
        "Album"@.len() == 5 && "Album"@[0] == 'A',
        "Genre"@.len() == 5 && "Genre"@[0] == 'G',
        "Date"@.len() == 4 && "Date"@[0] == 'D',
        "Track"@.len() == 5 && "Track"@[0] == 'T' && "Track"@[1] == 'r' && "Title"@[1] == 'i',
        "Time"@.len() == 4 && "Time"@[0] == 'T',
        "duration"@.len() == 8,
{
    reveal_strlit("file");
    reveal_strlit("Title");
    reveal_strlit("Artist");
    reveal_strlit("Album");
    reveal_strlit("Genre");
    reveal_strlit("Date");
    reveal_strlit("Track");
    reveal_strlit("Time");
    reveal_strlit("duration");
}

/// One more field changes what it names of the song, and nothing else: the last field of a key counts.
/// `duration` gives the length; `Time` gives it only where nothing before it did.
pub proof fn law_song_field(before: Seq<PairView>, p: PairView)
    ensures
        ({
            let a = song_of(before);
            let b = song_of(before.push(p));
            &&& p.key == "file"@ ==> b == (SongView { file: p.value, ..a })
            &&& p.key == "Title"@ ==> b == (SongView { title: Some(p.value), ..a })
            &&& p.key == "Artist"@ ==> b == (SongView { artist: Some(p.value), ..a })
            &&& p.key == "Album"@ ==> b == (SongView { album: Some(p.value), ..a })
            &&& p.key == "Genre"@ ==> b == (SongView { genre: Some(p.value), ..a })
            &&& p.key == "Date"@ ==> b == (SongView { date: Some(p.value), ..a })
            &&& p.key == "Track"@ ==> b == (SongView { track: Some(p.value), ..a })
            &&& p.key == "duration"@ ==> b == (SongView { duration_s: p.number.secs, ..a })
            &&& p.key == "Time"@ && a.duration_s is Some ==> b == a
            &&& p.key == "Time"@ && a.duration_s is None ==> match nat_within(
                p.value,
                u32::MAX as int,
            ) {
                Some(n) => b == (SongView { duration_s: Some(n as u32), ..a }),
                None => b == a,
            }
            &&& p.key != "file"@ && p.key != "Title"@ && p.key != "Artist"@ && p.key != "Album"@
                && p.key != "Genre"@ && p.key != "Date"@ && p.key != "Track"@ && p.key
                != "duration"@ && p.key != "Time"@ ==> b == a
        }),
{
    lemma_song_keys();
    assert(before.push(p).drop_last() =~= before);
    assert(before.push(p).last() == p);
}

/// Of a song of which nothing is said, nothing is known.
pub proof fn law_empty_song()
    ensures
        ({
            let s = song_of(Seq::empty());
            &&& s.file.len() == 0
            &&& s.title is None && s.artist is None && s.album is None && s.genre is None
            &&& s.date is None && s.track is None && s.duration_s is None
        }),
{
}

proof fn lemma_groups_after_file(before: Seq<PairView>, file: PairView, rest: Seq<PairView>)
    requires
        file.key == "file"@,
        forall|i: int| 0 <= i < rest.len() ==> (#[trigger] rest[i]).key != "file"@,
    ensures
        song_groups(before.push(file) + rest) == song_groups(before).push(seq![file] + rest),
    decreases rest.len(),
{
    let all = before.push(file) + rest;
    if rest.len() == 0 {
        assert(all =~= before.push(file));
        assert(all.drop_last() =~= before);
        assert(seq![file] + rest =~= seq![file]);
    } else {
        let t = rest.drop_last();
        assert forall|i: int| 0 <= i < t.len() implies (#[trigger] t[i]).key != "file"@ by {
            assert(t[i] == rest[i]);
        }
        lemma_groups_after_file(before, file, t);
        assert(all.drop_last() =~= before.push(file) + t);
        assert(all.last() == rest[rest.len() - 1]);
        let g = song_groups(before.push(file) + t);
        assert(g.last() == seq![file] + t);
        assert((seq![file] + t).push(rest.last()) =~= seq![file] + rest);
        assert(g.drop_last() =~= song_groups(before));
    }
}

/// The queue holds one more song for each `file` of the reply, made of the fields from there to the
/// next `file`, and the songs before it are what they were: the song has the file, and of each tag the
/// last that came for it.
pub proof fn law_queue_by_files(before: Seq<PairView>, file: PairView, rest: Seq<PairView>)
    requires
        file.key == "file"@,
        forall|i: int| 0 <= i < rest.len() ==> (#[trigger] rest[i]).key != "file"@,
    ensures
        ({
            let q = queue_of(before.push(file) + rest);
            let own = song_of(seq![file] + rest);
            &&& q.len() == queue_of(before).len() + 1
            &&& q.drop_last() == queue_of(before)
            &&& q.last().file == own.file
            &&& q.last().title == own.title
            &&& q.last().artist == own.artist
            &&& q.last().album == own.album
            &&& q.last().genre == own.genre
            &&& q.last().date == own.date
            &&& q.last().track == own.track
        }),
{
    lemma_groups_after_file(before, file, rest);
    let q = queue_of(before.push(file) + rest);
    assert(q.drop_last() =~= queue_of(before));
    law_field_table(seq![file] + rest);
}

proof fn lemma_last_field(front: Seq<PairView>, p: PairView, back: Seq<PairView>)
    requires
        forall|i: int| 0 <= i < back.len() ==> (#[trigger] back[i]).key != p.key,
    ensures
        last_field(front + seq![p] + back, p.key) == Some(p),
    decreases back.len(),
{
    let all = front + seq![p] + back;
    if back.len() == 0 {
        assert(all.last() == p);
    } else {
        let t = back.drop_last();
        assert forall|i: int| 0 <= i < t.len() implies (#[trigger] t[i]).key != p.key by {
            assert(t[i] == back[i]);
        }
        lemma_last_field(front, p, t);
        assert(all.drop_last() =~= front + seq![p] + t);
        assert(all.last() == back[back.len() - 1]);
    }
}

proof fn lemma_no_field(pairs: Seq<PairView>, key: Seq<char>)
    requires
        forall|i: int| 0 <= i < pairs.len() ==> (#[trigger] pairs[i]).key != key,
    ensures
        last_field(pairs, key) is None,
    decreases pairs.len(),
{
    if pairs.len() > 0 {
        let t = pairs.drop_last();
        assert forall|i: int| 0 <= i < t.len() implies (#[trigger] t[i]).key != key by {
            assert(t[i] == pairs[i]);
        }
        lemma_no_field(t, key);
        assert(pairs[pairs.len() - 1].key != key);
    }
}

proof fn lemma_duration_counts(table: Seq<PairView>)
    requires
        last_field(table, "duration"@) is Some,
        last_field(table, "duration"@)->0.number.secs is Some,
    ensures
        song_of(table).duration_s == last_field(table, "duration"@)->0.number.secs,
    decreases table.len(),
{
    lemma_song_keys();
    if table.last().key != "duration"@ {
        lemma_duration_counts(table.drop_last());
    }
}

proof fn lemma_time_counts(table: Seq<PairView>)
    requires
        distinct_keys(table),
        last_field(table, "duration"@) is None,
    ensures
        song_of(table).duration_s == match last_field(table, "Time"@) {
            Some(p) => match nat_within(p.value, u32::MAX as int) {
                Some(n) => Some(n as u32),
                None => None,
            },
            None => None,
        },
    decreases table.len(),
{
    lemma_song_keys();
    if table.len() > 0 {
        let t = table.drop_last();
        let k = t.len() as int;
        assert forall|i: int, j: int| 0 <= i < j < t.len() implies t[i].key != t[j].key by {
            assert(table[i].key != table[j].key);
        }
        if table.last().key == "Time"@ {
            assert forall|i: int| 0 <= i < t.len() implies (#[trigger] t[i]).key != "Time"@ by {
                assert(table[i].key != table[k].key);
            }
            lemma_no_field(t, "Time"@);
        }
        lemma_time_counts(t);
    }
}

/// The length of a song of the queue is what its last `duration` says, wherever it stands among the
/// fields of the song; without one, it is what its last `Time` says.
pub proof fn law_lengths_in_the_queue(
    before: Seq<PairView>,
    file: PairView,
    front: Seq<PairView>,
    p: PairView,
    back: Seq<PairView>,
    n: u32,
)
    requires
        file.key == "file"@,
        forall|i: int| 0 <= i < front.len() ==> (#[trigger] front[i]).key != "file"@,
        forall|i: int| 0 <= i < back.len() ==> (#[trigger] back[i]).key != "file"@ && back[i].key
            != p.key,
        p.key == "duration"@ || p.key == "Time"@,
    ensures
        ({
            let q = queue_of(before.push(file) + (front + seq![p] + back));
            &&& p.key == "duration"@ && p.number.secs == Some(n) ==> q.last().duration_s == Some(n)
            &&& p.key == "Time"@ && nat_within(p.value, u32::MAX as int) == Some(n as nat) && (forall|
                i: int,
            |
                0 <= i < front.len() ==> (#[trigger] front[i]).key != "duration"@) && (forall|i: int|
                0 <= i < back.len() ==> (#[trigger] back[i]).key != "duration"@)
                ==> q.last().duration_s == Some(n)
        }),
{
    lemma_song_keys();
    let rest = front + seq![p] + back;
    assert forall|i: int| 0 <= i < rest.len() implies (#[trigger] rest[i]).key != "file"@ by {
        if i < front.len() {
            assert(rest[i] == front[i]);
        } else if i == front.len() {
            assert(rest[i] == p);
        } else {
            assert(rest[i] == back[i - front.len() - 1]);
        }
    }
    lemma_groups_after_file(before, file, rest);
    let group = seq![file] + rest;
    law_field_table(group);
    assert(group =~= (seq![file] + front) + seq![p] + back);
    lemma_last_field(seq![file] + front, p, back);
    if p.key == "duration"@ && p.number.secs == Some(n) {
        lemma_duration_counts(field_table(group));
    }
    if p.key == "Time"@ && (forall|i: int|
        0 <= i < front.len() ==> (#[trigger] front[i]).key != "duration"@) && (forall|i: int|
        0 <= i < back.len() ==> (#[trigger] back[i]).key != "duration"@) {
        assert forall|i: int| 0 <= i < group.len() implies (#[trigger] group[i]).key
            != "duration"@ by {
            if i == 0 {
                assert(group[i] == file);
            } else if i - 1 < front.len() {
                assert(group[i] == front[i - 1]);
            } else if i - 1 == front.len() {
                assert(group[i] == p);
            } else {
                assert(group[i] == back[i - 2 - front.len()]);
            }
        }
        lemma_no_field(group, "duration"@);
        lemma_time_counts(field_table(group));
    }
}

/// The length of the current song, where no `duration` gives it, stands in `time`, behind what was
/// played of it and a colon.
pub proof fn law_time_field(before: Seq<PairView>, played: Seq<char>, n: u32, p: PairView)
    requires
        forall|i: int| 0 <= i < before.len() ==> (#[trigger] before[i]).key != "duration"@,
        p.key == "time"@,
        p.value == played + seq![':'] + dec(n as nat),
        forall|i: int| 0 <= i < played.len() ==> played[i] != ':',
    ensures
        status_of(before.push(p)).duration_s == n,
{
    lemma_status_keys();
    reveal_strlit(":");
    let all = before.push(p);
    assert(all.drop_last() =~= before);
    lemma_no_field(before, "duration"@);
    let k = played.len() as int;
    let v = p.value;
    assert(v.subrange(k, k + 1) =~= ":"@);
    assert(occurs_at(v, ":"@, k));
    assert forall|j: int| j < k implies !occurs_at(v, ":"@, j) by {
        if occurs_at(v, ":"@, j) {
            assert(v.subrange(j, j + 1)[0] == v[j]);
            assert(v[j] == played[j]);
        }
    }
    assert(first_at(v, ":"@, k));
    lemma_split_first(v, ":"@, k);
    assert(v.skip(k + 1) =~= dec(n as nat));
    law_dec_value(n as nat);
    assert(is_digit(dec(n as nat)[0]));
}

/// What the last `duration` says of the current song counts, whatever `time` says, before it or behind
/// it.
pub proof fn law_duration_field(before: Seq<PairView>, p: PairView, time: PairView, n: u32)
    requires
        p.key == "duration"@,
        p.number.secs == Some(n),
        time.key == "time"@,
    ensures
        status_of(before.push(p)).duration_s == n,
        status_of(before.push(p).push(time)).duration_s == n,
{
    lemma_status_keys();
    assert(before.push(p).drop_last() =~= before);
    assert(before.push(p).push(time).drop_last() =~= before.push(p));
}

/// The length of a queue is the sum of the lengths of its songs; one of unknown length adds nothing.
pub proof fn law_total_length(a: Seq<SongView>, b: Seq<SongView>, s: SongView)
    ensures
        total_length(a + b) == total_length(a) + total_length(b),
        total_length(seq![s]) == match s.duration_s {
            Some(n) => n as nat,
            None => 0,
        },
    decreases b.len(),
{
    assert(seq![s].drop_last() =~= Seq::<SongView>::empty());
    reveal_with_fuel(total_length, 2);
    if b.len() == 0 {
        assert(a + b =~= a);
    } else {
        law_total_length(a, b.drop_last(), s);
        assert((a + b).drop_last() =~= a + b.drop_last());
        assert((a + b).last() == b.last());
    }
}

// ---------------------------------------------------------------------------
// Names of songs
// ---------------------------------------------------------------------------

/// A song without a title is shown by the name of its file, without the directories before it and the
/// extension behind it.
pub proof fn law_title_from_file(
    status: Status,
    total: u32,
    song: SongView,
    dir: Seq<char>,
    stem: Seq<char>,
    ext: Seq<char>,
)
    requires
        status.state != State::Stop,
        song.title is None,
        dir.len() == 0 || dir.last() == '/',
        song.file == dir + stem + seq!['.'] + ext,
        forall|i: int| 0 <= i < stem.len() ==> stem[i] != '/',
        forall|i: int| 0 <= i < ext.len() ==> ext[i] != '/' && ext[i] != '.',
    ensures
        state_members(status, total, Some(song))[9] == ("title"@, stem),
{
    let f = song.file;
    let d = dir.len() as int;
    let s = stem.len() as int;
    lemma_last_place(f, '/');
    let k = crate::pieces::last_place(f, '/');
    assert forall|j: int| d <= j < f.len() implies f[j] != '/' by {
        if j < d + s {
            assert(f[j] == stem[j - d]);
        } else if j > d + s {
            assert(f[j] == ext[j - d - s - 1]);
        }
    }
    if d > 0 {
        assert(f[d - 1] == '/');
    }
    assert(k == d - 1);
    let name = f.skip(d);
    assert(name =~= stem + seq!['.'] + ext);
    lemma_last_place(name, '.');
    let p = crate::pieces::last_place(name, '.');
    assert forall|j: int| s < j < name.len() implies name[j] != '.' by {
        assert(name[j] == ext[j - s - 1]);
    }
    assert(name[s] == '.');
    assert(p == s);
    assert(name.take(s) =~= stem);
}

/// A file whose name has no extension is shown by its whole name; and a title `Unknown` is as none.
pub proof fn law_title_without_extension(
    status: Status,
    total: u32,
    song: SongView,
    dir: Seq<char>,
    name: Seq<char>,
)
    requires
        status.state != State::Stop,
        dir.len() == 0 || dir.last() == '/',
        song.file == dir + name,
        forall|i: int| 0 <= i < name.len() ==> name[i] != '/' && name[i] != '.',
    ensures
        song.title is None ==> state_members(status, total, Some(song))[9] == ("title"@, name),
        song.title == Some("Unknown"@) ==> state_members(status, total, Some(song))[9] == state_members(
            status,
            total,
            Some(SongView { title: None, ..song }),
        )[9],
{
    let f = song.file;
    let d = dir.len() as int;
    lemma_last_place(f, '/');
    assert forall|j: int| d <= j < f.len() implies f[j] != '/' by {
        assert(f[j] == name[j - d]);
    }
    if d > 0 {
        assert(f[d - 1] == '/');
    }
    assert(crate::pieces::last_place(f, '/') == d - 1);
    assert(f.skip(d) =~= name);
    lemma_last_place(name, '.');
}

/// The number of the track is shown as far as it is known.
pub proof fn law_track_is_shown(status: Status, total: u32, song: SongView)
    requires
        status.state != State::Stop,
    ensures
        ({
            let m = state_members(status, total, Some(song))[5];
            &&& m.0 == "track_number"@
            &&& song.track matches Some(t) ==> m.1 == track_number(t)
            &&& song.track is None ==> m.1 == "0"@
        }),
{
}

/// The kind of a file is its extension in capitals, without the dot; a file without one is of an
/// unknown kind.
pub proof fn law_file_type(
    status: Status,
    total: u32,
    song: SongView,
    front: Seq<char>,
    ext: Seq<char>,
)
    requires
        status.state != State::Stop,
        forall|i: int| 0 <= i < ext.len() ==> ext[i] != '.',
    ensures
        ({
            let m = state_members(status, total, Some(song))[14];
            &&& m.0 == "file_type"@
            &&& song.file == front + seq!['.'] + ext && ext.len() > 0 ==> m.1 == upper(ext)
            &&& song.file == front + seq!['.'] && ext.len() == 0 ==> m.1 == "Unknown"@
            &&& song.file == ext ==> m.1 == "Unknown"@
        }),
{
    let f = song.file;
    let n = front.len() as int;
    lemma_last_place(f, '.');
    let p = crate::pieces::last_place(f, '.');
    if f == front + seq!['.'] + ext && ext.len() > 0 {
        assert(f[n] == '.');
        assert forall|j: int| n < j < f.len() implies f[j] != '.' by {
            assert(f[j] == ext[j - n - 1]);
        }
        assert(p == n);
        assert(f.skip(n + 1) =~= ext);
    }
    if f == front + seq!['.'] {
        assert(f[n] == '.');
        assert(p == n);
    }
}

/// A text in capitals has a capital for each small letter of the alphabet, and is otherwise the same.
pub proof fn law_capitals(s: Seq<char>, i: int)
    requires
        0 <= i < s.len(),
    ensures
        upper(s).len() == s.len(),
        'a' <= s[i] <= 'z' ==> upper(s)[i] as int == s[i] as int - 32,
        !('a' <= s[i] <= 'z') ==> upper(s)[i] == s[i],
{
}

proof fn lemma_digits_kept(s: Seq<char>)
    ensures
        ({
            let d = s.filter(|c: char| is_digit(c));
            &&& all_digits(d)
            &&& all_digits(s) ==> d == s
            &&& (forall|i: int| 0 <= i < s.len() ==> !is_digit(#[trigger] s[i])) ==> d.len() == 0
        }),
    decreases s.len(),
{
    reveal(Seq::filter);
    if s.len() > 0 {
        let t = s.drop_last();
        lemma_digits_kept(t);
        assert(forall|i: int| 0 <= i < t.len() ==> t[i] == s[i]);
        if all_digits(s) {
            assert(is_digit(s[s.len() - 1]));
            assert(all_digits(t)) by {
                assert forall|i: int| 0 <= i < t.len() implies is_digit(#[trigger] t[i]) by {
                    assert(is_digit(s[i]));
                }
            }
            assert(t.push(s.last()) =~= s);
        }
        if forall|i: int| 0 <= i < s.len() ==> !is_digit(#[trigger] s[i]) {
            assert(!is_digit(s[s.len() - 1]));
            assert forall|i: int| 0 <= i < t.len() implies !is_digit(#[trigger] t[i]) by {
                assert(!is_digit(s[i]));
            }
        }
    }
}

/// The number of a track is shown without the number of tracks behind a slash; a track that has no
/// digit is shown as 0.
pub proof fn law_track_number(number: Seq<char>, rest: Seq<char>, s: Seq<char>)
    requires
        number.len() > 0,
        all_digits(number),
    ensures
        track_number(number) == number,
        track_number(number + "/"@ + rest) == number,
        track_number(s).len() > 0 && all_digits(track_number(s)),
        (forall|i: int| 0 <= i < s.len() ==> !is_digit(#[trigger] s[i])) ==> track_number(s) == "0"@,
{
    reveal_strlit("/");
    reveal_strlit("0");
    lemma_digits_kept(number);
    assert(!contains_text(number, "/"@)) by {
        assert forall|i: int| !occurs_at(number, "/"@, i) by {
            if occurs_at(number, "/"@, i) {
                assert(number.subrange(i, i + 1)[0] == number[i]);
                assert(is_digit(number[i]));
            }
        }
    }
    let all = number + "/"@ + rest;
    let n = number.len() as int;
    assert(all.subrange(n, n + 1) =~= "/"@);
    assert(occurs_at(all, "/"@, n));
    assert forall|j: int| j < n implies !occurs_at(all, "/"@, j) by {
        if occurs_at(all, "/"@, j) {
            assert(all.subrange(j, j + 1)[0] == all[j]);
            assert(all[j] == number[j]);
            assert(is_digit(number[j]));
        }
    }
    assert(first_at(all, "/"@, n));
    lemma_split_first(all, "/"@, n);
    assert(all.take(n) =~= number);
    lemma_digits_kept(s);
    if contains_text(s, "/"@) {
        let i = choose|i: int| first_at(s, "/"@, i);
        lemma_digits_kept(s.take(i));
        let k = choose|k: int| occurs_at(s, "/"@, k);
        crate::pieces::lemma_first_exists(s, "/"@, k);
        assert(first_at(s, "/"@, i));
        if forall|j: int| 0 <= j < s.len() ==> !is_digit(#[trigger] s[j]) {
            assert forall|j: int| 0 <= j < s.take(i).len() implies !is_digit(
                #[trigger] s.take(i)[j],
            ) by {
                assert(!is_digit(s[j]));
            }
        }
    }
}

proof fn lemma_no_slash(s: Seq<char>)
    requires
        forall|i: int| 0 <= i < s.len() ==> #[trigger] s[i] != '/',
    ensures
        !contains_text(s, "/"@),
{
    reveal_strlit("/");
    assert forall|i: int| !occurs_at(s, "/"@, i) by {
        if occurs_at(s, "/"@, i) {
            assert(s.subrange(i, i + 1)[0] == s[i]);
        }
    }
}

/// Of a track that is no plain number the digits are shown, in their order, without what stands round
/// them.
pub proof fn law_digits_of_a_track(front: Seq<char>, number: Seq<char>, back: Seq<char>)
    requires
        number.len() > 0,
        all_digits(number),
        forall|i: int| 0 <= i < front.len() ==> !is_digit(#[trigger] front[i]) && front[i] != '/',
        forall|i: int| 0 <= i < back.len() ==> !is_digit(#[trigger] back[i]) && back[i] != '/',
    ensures
        track_number(front + number + back) == number,
{
    let s = front + number + back;
    let f = |c: char| is_digit(c);
    assert(!contains_text(s, "/"@)) by {
        assert forall|i: int| 0 <= i < s.len() implies #[trigger] s[i] != '/' by {
            if i < front.len() {
                assert(s[i] == front[i]);
            } else if i < front.len() + number.len() {
                assert(is_digit(number[i - front.len()]));
            } else {
                assert(s[i] == back[i - front.len() - number.len()]);
            }
        }
        lemma_no_slash(s);
    }
    assert(s.filter(f) == number) by {
        Seq::filter_distributes_over_add(front + number, back, f);
        Seq::filter_distributes_over_add(front, number, f);
        lemma_digits_kept(front);
        lemma_digits_kept(number);
        lemma_digits_kept(back);
        assert(front.filter(f) =~= Seq::<char>::empty());
        assert(back.filter(f) =~= Seq::<char>::empty());
        assert(Seq::<char>::empty() + number + Seq::<char>::empty() =~= number);
    }
}

// ---------------------------------------------------------------------------
// How a state comes about
// ---------------------------------------------------------------------------

/// The songs of the queue are asked for exactly if their number has changed since they were last
/// summed up, or there are none; otherwise the length that is known is used. The current song is asked
/// for exactly if the player has not stopped.
pub proof fn law_what_is_asked(bridge: MpdBridge, status: Status)
    requires
        bridge.client,
    ensures
        ({
            let step = bridge.status_step(Ok(status));
            let known = bridge.cache.playlist_length == status.queue_len && status.queue_len > 0;
            &&& step is AskPlaylist <==> !known
            &&& step matches StateStep::AskSong { total } ==> total == bridge.cache.playlist_time
            &&& step matches StateStep::Ready { total } ==> total == bridge.cache.playlist_time
            &&& step is AskSong <==> known && status.state != State::Stop
            &&& step is Ready <==> known && status.state == State::Stop
        }),
        ({
            let after = bridge.after_status(Ok(status));
            &&& after.cache.state == Some(status.state)
            &&& after.cache.elapsed_ms == status.elapsed_ms
            &&& after.cache.playlist_time == bridge.cache.playlist_time
            &&& after.cache.playlist_length == bridge.cache.playlist_length
            &&& after.cache.stop_count == bridge.cache.stop_count
            &&& after.cache.last_stop == bridge.cache.last_stop
        }),
{
}

/// The loss of a player is news exactly if it was there and its loss was not told before.
pub proof fn law_loss_is_told(bridge: MpdBridge, e: McubError)
    requires
        bridge.client,
    ensures
        ({
            let step = bridge.status_step(Err(e));
            let after = bridge.after_status(Err(e));
            &&& step matches StateStep::Lost { report }
            &&& report <==> bridge.cache.mpd_connected && !bridge.cache.mpd_error_logged
            &&& !after.cache.mpd_connected
            &&& report ==> after.cache.mpd_error_logged
            &&& after.cache.state == bridge.cache.state
        }),
{
}

/// A bridge that has reached the player asks it, and takes it for there; one that has not, does not
/// ask it, and remembers what it did before.
pub proof fn law_connection(bridge: MpdBridge)
    ensures
        bridge.after_connect(true).client && bridge.after_connect(true).cache.mpd_connected,
        !bridge.after_connect(true).cache.mpd_error_logged,
        !bridge.after_connect(false).client,
        bridge.after_connect(false).cache == bridge.cache,
        forall|ok: bool|
            (#[trigger] bridge.after_connect(ok)).cache.playlist_time == bridge.cache.playlist_time
                && bridge.after_connect(ok).last_update == bridge.last_update,
{
}

/// The state is sent at once the first time, and then as soon as the interval has gone by since it was
/// last sent.
pub proof fn law_state_is_due(bridge: MpdBridge, now: u64)
    ensures
        bridge.last_update is None ==> bridge.status_due(now),
        bridge.last_update matches Some(t) ==> (now >= t ==> (bridge.status_due(now) <==> now - t
            >= bridge.update_interval_ns)),
{
}

/// The bridge of the player comes up in this order: the line is opened, the player is reached, the
/// device is asked for its name, and then states are sent, whether it gave it or not.
pub proof fn law_player_start(event: MpdEvent)
    ensures
        mpd_step(event) == MpdStep::ReachPlayer <==> event == MpdEvent::Connected(true),
        mpd_step(event) == MpdStep::Identify <==> event == MpdEvent::PlayerReached(true),
        mpd_step(event) == MpdStep::Loop <==> event is Identified,
{
}

} // verus!
