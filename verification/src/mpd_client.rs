//! The text protocol of the music player: requests, replies, status and songs.
//!
//! A request is a line. The reply to it is a run of lines `key: value`, ended by `OK`; a refusal
//! is a line that begins with `ACK`.
use crate::error::{McubError, McubResult};
use crate::pieces::{
    after_prefix, begins_with, drop_line_end, split_first, split_text, starts_with, trim, trimmed,
    without_line_end,
};
use crate::text::{
    dec, dec_int, dec_int_text, dec_text, int_within, joined, nat_within, opt_view, read_i32,
    read_u32, same_text,
};
use vstd::prelude::*;
use vstd::string::*;

verus! {

// ---------------------------------------------------------------------------
// Requests
// ---------------------------------------------------------------------------

/// A request to the player.
#[derive(Debug, Clone, Copy, PartialEq, Eq, Structural)]
pub enum Command {
    Status,
    CurrentSong,
    PlaylistInfo,
    Play,
    Stop,
    Next,
    Previous,
    TogglePause,
    Pause(bool),
    PlayPos(u32),
    SeekCurrent(u32),
    SetVolume(i32),
    SetRepeat(bool),
    SetRandom(bool),
    SetSingle(bool),
    SetConsume(bool),
}

/// A switch as the protocol writes it.
pub open spec fn switch_text(on: bool) -> Seq<char> {
    if on {
        "1"@
    } else {
        "0"@
    }
}

fn switch_str(on: bool) -> (r: &'static str)
    ensures
        r@ == switch_text(on),
{
    if on {
        "1"
    } else {
        "0"
    }
}

impl Command {
    /// The request as the protocol writes it, without the end of the line.
    pub open spec fn text(self) -> Seq<char> {
        match self {
            Command::Status => "status"@,
            Command::CurrentSong => "currentsong"@,
            Command::PlaylistInfo => "playlistinfo"@,
            Command::Play => "play"@,
            Command::Stop => "stop"@,
            Command::Next => "next"@,
            Command::Previous => "previous"@,
            Command::TogglePause => "pause"@,
            Command::Pause(on) => "pause "@ + switch_text(on),
            Command::PlayPos(pos) => "play "@ + dec(pos as nat),
            Command::SeekCurrent(seconds) => "seekcur "@ + dec(seconds as nat),
            Command::SetVolume(v) => "setvol "@ + dec_int(v as int),
            Command::SetRepeat(on) => "repeat "@ + switch_text(on),
            Command::SetRandom(on) => "random "@ + switch_text(on),
            Command::SetSingle(on) => "single "@ + switch_text(on),
            Command::SetConsume(on) => "consume "@ + switch_text(on),
        }
    }

    /// The line that is sent for the request.
    pub fn line(self) -> (r: String)
        ensures
            r@ == self.text().push('\n'),
    {
        let mut r = match self {
            Command::Status => "status".to_owned(),
            Command::CurrentSong => "currentsong".to_owned(),
            Command::PlaylistInfo => "playlistinfo".to_owned(),
            Command::Play => "play".to_owned(),
            Command::Stop => "stop".to_owned(),
            Command::Next => "next".to_owned(),
            Command::Previous => "previous".to_owned(),
            Command::TogglePause => "pause".to_owned(),
            Command::Pause(on) => joined("pause ", switch_str(on)),
            Command::PlayPos(pos) => joined("play ", dec_text(pos as u64).as_str()),
            Command::SeekCurrent(s) => joined("seekcur ", dec_text(s as u64).as_str()),
            Command::SetVolume(v) => joined("setvol ", dec_int_text(v as i64).as_str()),
            Command::SetRepeat(on) => joined("repeat ", switch_str(on)),
            Command::SetRandom(on) => joined("random ", switch_str(on)),
            Command::SetSingle(on) => joined("single ", switch_str(on)),
            Command::SetConsume(on) => joined("consume ", switch_str(on)),
        };
        r.push('\n');
        r
    }
}

/// A volume held between 0 and 100.
pub open spec fn volume_within(v: int) -> int {
    if v < 0 {
        0
    } else if v > 100 {
        100
    } else {
        v
    }
}

// ---------------------------------------------------------------------------
// Replies
// ---------------------------------------------------------------------------

/// A value of a reply read as a decimal number of seconds by the host: the milliseconds, 0 where
/// it is no number, and the whole seconds, where it is one.
#[derive(Debug, Clone, Copy, PartialEq, Eq, Structural)]
pub struct Reading {
    pub millis: u64,
    pub secs: Option<u32>,
}

/// A field of a reply.
#[derive(Debug)]
pub struct Pair {
    pub key: String,
    pub value: String,
    pub number: Reading,
}

/// A field of a reply, by its characters.
pub struct PairView {
    pub key: Seq<char>,
    pub value: Seq<char>,
    pub number: Reading,
}

impl View for Pair {
    type V = PairView;

    open spec fn view(&self) -> PairView {
        PairView { key: self.key@, value: self.value@, number: self.number }
    }
}

/// The fields of a reply, by their characters.
pub open spec fn fields(pairs: Seq<Pair>) -> Seq<PairView> {
    Seq::new(pairs.len(), |i: int| pairs[i]@)
}

/// A line of a reply.
#[derive(Debug)]
pub enum Line {
    /// The end of the reply.
    End,
    /// The request was refused, for the given reason.
    Refused(String),
    /// A field: its key and its value.
    Field(String, String),
    /// A line of no meaning.
    Other,
}

/// A line of a reply, by its characters.
pub enum LineView {
    End,
    Refused(Seq<char>),
    Field(Seq<char>, Seq<char>),
    Other,
}

impl View for Line {
    type V = LineView;

    open spec fn view(&self) -> LineView {
        match self {
            Line::End => LineView::End,
            Line::Refused(m) => LineView::Refused(m@),
            Line::Field(k, v) => LineView::Field(k@, v@),
            Line::Other => LineView::Other,
        }
    }
}

/// What a line of a reply means.
pub open spec fn line_of(raw: Seq<char>) -> LineView {
    let s = without_line_end(raw);
    if s == "OK"@ {
        LineView::End
    } else if starts_with(s, "ACK "@) {
        LineView::Refused(s.skip(4))
    } else {
        match split_first(s, ": "@) {
            Some((k, v)) => LineView::Field(k, v),
            None => LineView::Other,
        }
    }
}

impl Line {
    /// What a line of a reply means.
    pub fn parse(raw: &str) -> (r: Line)
        ensures
            r@ == line_of(raw@),
    {
        proof {
            reveal_strlit("ACK ");
        }
        let s = drop_line_end(raw);
        if same_text(s.as_str(), "OK") {
            return Line::End;
        }
        match after_prefix(s.as_str(), "ACK ") {
            Some(m) => Line::Refused(m),
            None => match split_text(s.as_str(), ": ") {
                Some((k, v)) => Line::Field(k, v),
                None => Line::Other,
            },
        }
    }
}

/// How far a reply has come.
#[derive(Debug)]
pub enum Progress {
    /// More lines follow.
    More,
    /// The reply is complete.
    Complete,
    /// The request failed.
    Failed(McubError),
}

/// A connection to the player, with the fields of the reply that is being read.
#[derive(Debug)]
pub struct MpdClient {
    pub pairs: Vec<Pair>,
}

impl MpdClient {
    /// Greets a player that sent the given first line. One that does not name the protocol is an
    /// error.
    pub fn connect(banner: &str) -> (r: McubResult<MpdClient>)
        ensures
            match r {
                Ok(c) => starts_with(banner@, "OK MPD"@) && c.pairs@.len() == 0,
                Err(e) => {
                    &&& !starts_with(banner@, "OK MPD"@)
                    &&& e matches McubError::Mpd(m)
                    &&& m@ == "bad banner: "@ + trim(banner@)
                },
            },
    {
        if begins_with(banner, "OK MPD") {
            Ok(MpdClient { pairs: Vec::new() })
        } else {
            Err(McubError::Mpd(joined("bad banner: ", trimmed(banner).as_str())))
        }
    }

    /// Forgets the fields of the last reply: a request goes out.
    pub fn send(&mut self, command: Command) -> (r: String)
        ensures
            final(self).pairs@.len() == 0,
            r@ == command.text().push('\n'),
    {
        self.pairs = Vec::new();
        command.line()
    }

    /// Takes the next line of a reply; none, where the player has closed the connection. `number`
    /// is the value of the field read as a decimal number.
    pub fn read_pairs(&mut self, line: Option<Line>, number: Reading) -> (r: Progress)
        ensures
            match line {
                Some(l) => match l@ {
                    LineView::End => r is Complete && final(self).pairs@ == old(self).pairs@,
                    LineView::Refused(m) => {
                        &&& final(self).pairs@ == old(self).pairs@
                        &&& r matches Progress::Failed(McubError::Mpd(e))
                        &&& e@ == m
                    },
                    LineView::Field(key, value) => {
                        &&& r is More
                        &&& fields(final(self).pairs@) == fields(old(self).pairs@).push(
                            (PairView { key, value, number }),
                        )
                    },
                    LineView::Other => r is More && final(self).pairs@ == old(self).pairs@,
                },
                None => {
                    &&& final(self).pairs@ == old(self).pairs@
                    &&& r matches Progress::Failed(McubError::Mpd(e))
                    &&& e@ == "connection closed"@
                },
            },
    {
        match line {
            None => Progress::Failed(McubError::Mpd("connection closed".to_owned())),
            Some(Line::End) => Progress::Complete,
            Some(Line::Refused(m)) => Progress::Failed(McubError::Mpd(m)),
            Some(Line::Field(key, value)) => {
                let ghost before = fields(self.pairs@);
                let pair = Pair { key, value, number };
                self.pairs.push(pair);
                assert(fields(self.pairs@) =~= before.push(pair@));
                Progress::More
            },
            Some(Line::Other) => Progress::More,
        }
    }

    pub fn play() -> (r: Command)
        ensures
            r == Command::Play,
    {
        Command::Play
    }

    pub fn stop() -> (r: Command)
        ensures
            r == Command::Stop,
    {
        Command::Stop
    }

    pub fn next() -> (r: Command)
        ensures
            r == Command::Next,
    {
        Command::Next
    }

    pub fn previous() -> (r: Command)
        ensures
            r == Command::Previous,
    {
        Command::Previous
    }

    /// Pauses or resumes, whatever the player does now. The protocol advises against it.
    pub fn toggle_pause() -> (r: Command)
        ensures
            r == Command::TogglePause,
    {
        Command::TogglePause
    }

    /// Pauses, or resumes.
    pub fn pause(on: bool) -> (r: Command)
        ensures
            r == Command::Pause(on),
    {
        Command::Pause(on)
    }

    /// Plays the song at a position of the queue.
    pub fn play_pos(pos: u32) -> (r: Command)
        ensures
            r == Command::PlayPos(pos),
    {
        Command::PlayPos(pos)
    }

    /// Goes to a second of the current song.
    pub fn seek_current(seconds: u32) -> (r: Command)
        ensures
            r == Command::SeekCurrent(seconds),
    {
        Command::SeekCurrent(seconds)
    }

    /// Sets the volume, held between 0 and 100.
    pub fn set_volume(vol: i32) -> (r: Command)
        ensures
            r == Command::SetVolume(volume_within(vol as int) as i32),
    {
        if vol < 0 {
            Command::SetVolume(0)
        } else if vol > 100 {
            Command::SetVolume(100)
        } else {
            Command::SetVolume(vol)
        }
    }

    pub fn set_repeat(on: bool) -> (r: Command)
        ensures
            r == Command::SetRepeat(on),
    {
        Command::SetRepeat(on)
    }

    pub fn set_random(on: bool) -> (r: Command)
        ensures
            r == Command::SetRandom(on),
    {
        Command::SetRandom(on)
    }

    pub fn set_single(on: bool) -> (r: Command)
        ensures
            r == Command::SetSingle(on),
    {
        Command::SetSingle(on)
    }

    pub fn set_consume(on: bool) -> (r: Command)
        ensures
            r == Command::SetConsume(on),
    {
        Command::SetConsume(on)
    }
}

// ---------------------------------------------------------------------------
// Status
// ---------------------------------------------------------------------------

#[derive(Debug, Clone, Copy, PartialEq, Eq, Structural)]
pub enum State {
    Play,
    Pause,
    Stop,
}

impl State {
    /// The state that a text names; a text that names none means `Stop`.
    pub open spec fn named(s: Seq<char>) -> State {
        if s == "play"@ {
            State::Play
        } else if s == "pause"@ {
            State::Pause
        } else {
            State::Stop
        }
    }

    /// The state that a text names.
    pub fn from_str(s: &str) -> (r: State)
        ensures
            r == State::named(s@),
    {
        if same_text(s, "play") {
            State::Play
        } else if same_text(s, "pause") {
            State::Pause
        } else {
            State::Stop
        }
    }
}

impl Default for State {
    fn default() -> (r: State)
        ensures
            r == State::Stop,
    {
        State::Stop
    }
}

#[derive(Debug, Clone, Copy)]
pub struct Status {
    pub state: State,
    pub volume: i32,
    pub elapsed_ms: u64,
    pub duration_s: u32,
    pub song_pos: Option<i32>,
    pub song_id: Option<i32>,
    pub queue_len: i32,
    pub repeat: bool,
    pub random: bool,
    pub single: bool,
    pub consume: bool,
}

impl Status {
    /// What holds of a player that says nothing.
    pub open spec fn silent() -> Status {
        Status {
            state: State::Stop,
            volume: 0,
            elapsed_ms: 0,
            duration_s: 0,
            song_pos: None,
            song_id: None,
            queue_len: 0,
            repeat: false,
            random: false,
            single: false,
            consume: false,
        }
    }
}

impl Default for Status {
    fn default() -> (r: Status)
        ensures
            r == Status::silent(),
    {
        Status {
            state: State::Stop,
            volume: 0,
            elapsed_ms: 0,
            duration_s: 0,
            song_pos: None,
            song_id: None,
            queue_len: 0,
            repeat: false,
            random: false,
            single: false,
            consume: false,
        }
    }
}

/// The last field with the given key.
pub open spec fn last_field(pairs: Seq<PairView>, key: Seq<char>) -> Option<PairView>
    decreases pairs.len(),
{
    if pairs.len() == 0 {
        None
    } else if pairs.last().key == key {
        Some(pairs.last())
    } else {
        last_field(pairs.drop_last(), key)
    }
}

/// The `i32` that a text writes down.
pub open spec fn i32_value(s: Seq<char>) -> Option<i32> {
    match int_within(s, i32::MIN as int, i32::MAX as int) {
        Some(n) => Some(n as i32),
        None => None,
    }
}

/// The value of a field as an `i32`.
pub open spec fn i32_field(pairs: Seq<PairView>, key: Seq<char>) -> Option<i32> {
    match last_field(pairs, key) {
        Some(p) => i32_value(p.value),
        None => None,
    }
}

/// The number, or 0 where there is none.
pub open spec fn or_zero(n: Option<i32>) -> i32 {
    match n {
        Some(k) => k,
        None => 0,
    }
}

/// The field is there, and its value is the given text.
pub open spec fn field_is(pairs: Seq<PairView>, key: Seq<char>, value: Seq<char>) -> bool {
    match last_field(pairs, key) {
        Some(p) => p.value == value,
        None => false,
    }
}

/// The field is there, and its value is another than the given text.
pub open spec fn field_is_not(pairs: Seq<PairView>, key: Seq<char>, value: Seq<char>) -> bool {
    match last_field(pairs, key) {
        Some(p) => p.value != value,
        None => false,
    }
}

/// The length that the value of a field `time` holds: it stands behind the time elapsed and a
/// colon, and what is no number means 0.
pub open spec fn total_in(value: Seq<char>) -> Option<u32> {
    match split_first(value, ":"@) {
        Some((elapsed, total)) => match nat_within(total, u32::MAX as int) {
            Some(n) => Some(n as u32),
            None => Some(0),
        },
        None => None,
    }
}

/// The length that the last field `time` gives that holds one.
pub open spec fn last_total(pairs: Seq<PairView>) -> Option<u32>
    decreases pairs.len(),
{
    if pairs.len() == 0 {
        None
    } else if pairs.last().key == "time"@ && total_in(pairs.last().value) is Some {
        total_in(pairs.last().value)
    } else {
        last_total(pairs.drop_last())
    }
}

/// A field `duration` is there.
pub open spec fn has_duration(pairs: Seq<PairView>) -> bool {
    last_field(pairs, "duration"@) is Some
}

/// The length of the song in whole seconds. `duration` gives it, wherever it stands; only where
/// there is no such field does `time` give it.
pub open spec fn status_duration(pairs: Seq<PairView>) -> u32 {
    match last_field(pairs, "duration"@) {
        Some(p) => match p.number.secs {
            Some(n) => n,
            None => 0,
        },
        None => match last_total(pairs) {
            Some(n) => n,
            None => 0,
        },
    }
}

/// The status that a reply gives. `single` and `consume` are on unless they are `0`, so that they
/// are on in the mode `oneshot` as well.
pub open spec fn status_of(pairs: Seq<PairView>) -> Status {
    Status {
        state: match last_field(pairs, "state"@) {
            Some(p) => State::named(p.value),
            None => State::Stop,
        },
        volume: or_zero(i32_field(pairs, "volume"@)),
        elapsed_ms: match last_field(pairs, "elapsed"@) {
            Some(p) => p.number.millis,
            None => 0,
        },
        duration_s: status_duration(pairs),
        song_pos: i32_field(pairs, "song"@),
        song_id: i32_field(pairs, "songid"@),
        queue_len: or_zero(i32_field(pairs, "playlistlength"@)),
        repeat: field_is(pairs, "repeat"@, "1"@),
        random: field_is(pairs, "random"@, "1"@),
        single: field_is_not(pairs, "single"@, "0"@),
        consume: field_is_not(pairs, "consume"@, "0"@),
    }
}

/// The value as an `i32`, or 0.
fn i32_or_zero(s: &str) -> (r: i32)
    ensures
        r == or_zero(i32_value(s@)),
{
    match read_i32(s) {
        Some(n) => n,
        None => 0,
    }
}

/// The length of the song after one more field. `seen` tells whether `duration` was there before.
spec fn duration_with(seen: bool, before: u32, p: PairView) -> u32 {
    if p.key == "duration"@ {
        match p.number.secs {
            Some(n) => n,
            None => 0,
        }
    } else if p.key == "time"@ && !seen {
        match total_in(p.value) {
            Some(n) => n,
            None => before,
        }
    } else {
        before
    }
}

/// The status after one more field.
spec fn status_with(seen: bool, s: Status, p: PairView) -> Status {
    Status {
        state: if p.key == "state"@ {
            State::named(p.value)
        } else {
            s.state
        },
        volume: if p.key == "volume"@ {
            or_zero(i32_value(p.value))
        } else {
            s.volume
        },
        elapsed_ms: if p.key == "elapsed"@ {
            p.number.millis
        } else {
            s.elapsed_ms
        },
        duration_s: duration_with(seen, s.duration_s, p),
        song_pos: if p.key == "song"@ {
            i32_value(p.value)
        } else {
            s.song_pos
        },
        song_id: if p.key == "songid"@ {
            i32_value(p.value)
        } else {
            s.song_id
        },
        queue_len: if p.key == "playlistlength"@ {
            or_zero(i32_value(p.value))
        } else {
            s.queue_len
        },
        repeat: if p.key == "repeat"@ {
            p.value == "1"@
        } else {
            s.repeat
        },
        random: if p.key == "random"@ {
            p.value == "1"@
        } else {
            s.random
        },
        single: if p.key == "single"@ {
            p.value != "0"@
        } else {
            s.single
        },
        consume: if p.key == "consume"@ {
            p.value != "0"@
        } else {
            s.consume
        },
    }
}

proof fn lemma_status_step(seen: Seq<PairView>, p: PairView)
    ensures
        status_of(seen.push(p)) == status_with(has_duration(seen), status_of(seen), p),
        has_duration(seen.push(p)) == (has_duration(seen) || p.key == "duration"@),
{
    reveal_strlit("duration");
    reveal_strlit("time");
    assert("duration"@.len() != "time"@.len());
    assert(seen.push(p).drop_last() =~= seen);
    assert(seen.push(p).last() == p);
}

/// The length of the song after one more field.
fn apply_duration(seen: bool, before: u32, p: &Pair) -> (r: u32)
    ensures
        r == duration_with(seen, before, p@),
{
    if same_text(p.key.as_str(), "duration") {
        match p.number.secs {
            Some(n) => n,
            None => 0,
        }
    } else if !seen && same_text(p.key.as_str(), "time") {
        match split_text(p.value.as_str(), ":") {
            Some((elapsed, total)) => match read_u32(total.as_str()) {
                Some(n) => n,
                None => 0,
            },
            None => before,
        }
    } else {
        before
    }
}

/// The status after one more field.
fn apply_status_field(seen: bool, s: Status, p: &Pair) -> (r: Status)
    ensures
        r == status_with(seen, s, p@),
{
    let key = p.key.as_str();
    let value = p.value.as_str();
    Status {
        state: if same_text(key, "state") {
            State::from_str(value)
        } else {
            s.state
        },
        volume: if same_text(key, "volume") {
            i32_or_zero(value)
        } else {
            s.volume
        },
        elapsed_ms: if same_text(key, "elapsed") {
            p.number.millis
        } else {
            s.elapsed_ms
        },
        duration_s: apply_duration(seen, s.duration_s, p),
        song_pos: if same_text(key, "song") {
            read_i32(value)
        } else {
            s.song_pos
        },
        song_id: if same_text(key, "songid") {
            read_i32(value)
        } else {
            s.song_id
        },
        queue_len: if same_text(key, "playlistlength") {
            i32_or_zero(value)
        } else {
            s.queue_len
        },
        repeat: if same_text(key, "repeat") {
            same_text(value, "1")
        } else {
            s.repeat
        },
        random: if same_text(key, "random") {
            same_text(value, "1")
        } else {
            s.random
        },
        single: if same_text(key, "single") {
            !same_text(value, "0")
        } else {
            s.single
        },
        consume: if same_text(key, "consume") {
            !same_text(value, "0")
        } else {
            s.consume
        },
    }
}

impl MpdClient {
    /// The status that the reply gives.
    pub fn status(&self) -> (r: Status)
        ensures
            r == status_of(fields(self.pairs@)),
    {
        let ghost f = fields(self.pairs@);
        let mut s = Status::default();
        let mut seen = false;
        assert(f.take(0) =~= Seq::<PairView>::empty());
        let mut i: usize = 0;
        while i < self.pairs.len()
            invariant
                i <= self.pairs@.len(),
                f == fields(self.pairs@),
                s == status_of(f.take(i as int)),
                seen == has_duration(f.take(i as int)),
            decreases self.pairs.len() - i,
        {
            s = apply_status_field(seen, s, &self.pairs[i]);
            if same_text(self.pairs[i].key.as_str(), "duration") {
                seen = true;
            }
            proof {
                lemma_status_step(f.take(i as int), f[i as int]);
                assert(f.take(i + 1) =~= f.take(i as int).push(f[i as int]));
            }
            i = i + 1;
        }
        assert(f.take(i as int) =~= f);
        s
    }
}

proof fn lemma_time_between(before: Seq<PairView>, time: PairView, after: Seq<PairView>)
    requires
        time.key == "time"@,
    ensures
        last_field(before.push(time) + after, "duration"@) == last_field(
            before + after,
            "duration"@,
        ),
        last_total(after) is None && total_in(time.value) is Some ==> last_total(
            before.push(time) + after,
        ) == total_in(time.value),
    decreases after.len(),
{
    reveal_strlit("duration");
    reveal_strlit("time");
    assert("duration"@.len() != "time"@.len());
    if after.len() == 0 {
        assert(before + after =~= before);
        assert(before.push(time) + after =~= before.push(time));
        assert(before.push(time).drop_last() =~= before);
    } else {
        let rest = after.drop_last();
        lemma_time_between(before, time, rest);
        assert((before + after).drop_last() =~= before + rest);
        assert((before + after).last() == after.last());
        assert((before.push(time) + after).drop_last() =~= before.push(time) + rest);
        assert((before.push(time) + after).last() == after.last());
    }
}

/// Where `duration` is given, what `time` says does not count, in whatever order they stand; where
/// it is not, the last `time` gives the length.
pub proof fn law_duration_goes_before_time(
    before: Seq<PairView>,
    time: PairView,
    after: Seq<PairView>,
)
    requires
        time.key == "time"@,
    ensures
        has_duration(before + after) ==> status_duration(before.push(time) + after)
            == status_duration(before + after),
        !has_duration(before + after) && last_total(after) is None ==> (total_in(
            time.value,
        ) matches Some(n) ==> status_duration(before.push(time) + after) == n),
{
    lemma_time_between(before, time, after);
}

// ---------------------------------------------------------------------------
// Songs
// ---------------------------------------------------------------------------

#[derive(Debug)]
pub struct Song {
    pub file: String,
    pub title: Option<String>,
    pub artist: Option<String>,
    pub album: Option<String>,
    pub genre: Option<String>,
    pub date: Option<String>,
    pub track: Option<String>,
    pub duration_s: Option<u32>,
}

/// A song, by its characters.
pub struct SongView {
    pub file: Seq<char>,
    pub title: Option<Seq<char>>,
    pub artist: Option<Seq<char>>,
    pub album: Option<Seq<char>>,
    pub genre: Option<Seq<char>>,
    pub date: Option<Seq<char>>,
    pub track: Option<Seq<char>>,
    pub duration_s: Option<u32>,
}

impl View for Song {
    type V = SongView;

    open spec fn view(&self) -> SongView {
        SongView {
            file: self.file@,
            title: opt_view(self.title),
            artist: opt_view(self.artist),
            album: opt_view(self.album),
            genre: opt_view(self.genre),
            date: opt_view(self.date),
            track: opt_view(self.track),
            duration_s: self.duration_s,
        }
    }
}

impl Default for Song {
    fn default() -> (r: Song)
        ensures
            r@ == song_of(Seq::empty()),
    {
        Song {
            file: String::new(),
            title: None,
            artist: None,
            album: None,
            genre: None,
            date: None,
            track: None,
            duration_s: None,
        }
    }
}

/// The value of a field.
pub open spec fn value_of(pairs: Seq<PairView>, key: Seq<char>) -> Option<Seq<char>> {
    match last_field(pairs, key) {
        Some(p) => Some(p.value),
        None => None,
    }
}

/// The length of a song in seconds. `duration` gives it; `Time` gives it where nothing before it
/// did.
pub open spec fn song_duration(pairs: Seq<PairView>) -> Option<u32>
    decreases pairs.len(),
{
    if pairs.len() == 0 {
        None
    } else {
        length_with(song_duration(pairs.drop_last()), pairs.last())
    }
}

/// The song that fields describe: what the last field of each kind says of it.
pub open spec fn song_of(pairs: Seq<PairView>) -> SongView {
    SongView {
        file: match value_of(pairs, "file"@) {
            Some(f) => f,
            None => Seq::empty(),
        },
        title: value_of(pairs, "Title"@),
        artist: value_of(pairs, "Artist"@),
        album: value_of(pairs, "Album"@),
        genre: value_of(pairs, "Genre"@),
        date: value_of(pairs, "Date"@),
        track: value_of(pairs, "Track"@),
        duration_s: song_duration(pairs),
    }
}

/// The length of a song after one more field.
pub open spec fn length_with(before: Option<u32>, p: PairView) -> Option<u32> {
    if p.key == "duration"@ {
        p.number.secs
    } else if p.key == "Time"@ && before is None {
        match nat_within(p.value, u32::MAX as int) {
            Some(n) => Some(n as u32),
            None => None,
        }
    } else {
        before
    }
}

/// What a song says after one more field under a key that is `name` or another.
pub open spec fn tag_with(before: Option<Seq<char>>, p: PairView, name: Seq<char>) -> Option<
    Seq<char>,
> {
    if p.key == name {
        Some(p.value)
    } else {
        before
    }
}

/// A song after one more field.
pub open spec fn song_with(s: SongView, p: PairView) -> SongView {
    SongView {
        file: if p.key == "file"@ {
            p.value
        } else {
            s.file
        },
        title: tag_with(s.title, p, "Title"@),
        artist: tag_with(s.artist, p, "Artist"@),
        album: tag_with(s.album, p, "Album"@),
        genre: tag_with(s.genre, p, "Genre"@),
        date: tag_with(s.date, p, "Date"@),
        track: tag_with(s.track, p, "Track"@),
        duration_s: length_with(s.duration_s, p),
    }
}

proof fn lemma_song_step(seen: Seq<PairView>, p: PairView)
    ensures
        song_of(seen.push(p)) == song_with(song_of(seen), p),
{
    assert(seen.push(p).drop_last() =~= seen);
    assert(seen.push(p).last() == p);
}

/// Adds a field to a song.
pub fn apply_song_field(s: &mut Song, p: &Pair)
    ensures
        final(s)@ == song_with(old(s)@, p@),
{
    let key = p.key.as_str();
    if same_text(key, "file") {
        s.file = p.value.clone();
    }
    if same_text(key, "Title") {
        s.title = Some(p.value.clone());
    }
    if same_text(key, "Artist") {
        s.artist = Some(p.value.clone());
    }
    if same_text(key, "Album") {
        s.album = Some(p.value.clone());
    }
    if same_text(key, "Genre") {
        s.genre = Some(p.value.clone());
    }
    if same_text(key, "Date") {
        s.date = Some(p.value.clone());
    }
    if same_text(key, "Track") {
        s.track = Some(p.value.clone());
    }
    if same_text(key, "duration") {
        s.duration_s = p.number.secs;
    } else if same_text(key, "Time") && s.duration_s.is_none() {
        s.duration_s = read_u32(p.value.as_str());
    }
}

/// The song that the fields describe, in the order in which they came.
pub fn song_from_pairs(pairs: &Vec<Pair>) -> (r: Song)
    ensures
        r@ == song_of(fields(pairs@)),
{
    let ghost f = fields(pairs@);
    let mut s = Song::default();
    assert(f.take(0) =~= Seq::<PairView>::empty());
    let mut i: usize = 0;
    while i < pairs.len()
        invariant
            i <= pairs@.len(),
            f == fields(pairs@),
            s@ == song_of(f.take(i as int)),
        decreases pairs.len() - i,
    {
        apply_song_field(&mut s, &pairs[i]);
        proof {
            lemma_song_step(f.take(i as int), f[i as int]);
            assert(f.take(i + 1) =~= f.take(i as int).push(f[i as int]));
        }
        i = i + 1;
    }
    assert(f.take(i as int) =~= f);
    s
}

// ---------------------------------------------------------------------------
// The queue
// ---------------------------------------------------------------------------

/// The last place of a key in a table, or -1.
pub open spec fn key_place(table: Seq<PairView>, key: Seq<char>) -> int
    decreases table.len(),
{
    if table.len() == 0 {
        -1
    } else if table.last().key == key {
        table.len() - 1
    } else {
        key_place(table.drop_last(), key)
    }
}

/// A table after one more field: the field takes the place of the one with its key, if there is
/// one, and comes last otherwise.
pub open spec fn table_with(table: Seq<PairView>, p: PairView) -> Seq<PairView> {
    if key_place(table, p.key) >= 0 {
        table.update(key_place(table, p.key), p)
    } else {
        table.push(p)
    }
}

/// The table of the fields: one field for each key, the last that came.
pub open spec fn field_table(pairs: Seq<PairView>) -> Seq<PairView>
    decreases pairs.len(),
{
    if pairs.len() == 0 {
        Seq::empty()
    } else {
        table_with(field_table(pairs.drop_last()), pairs.last())
    }
}

/// No key occurs twice.
pub open spec fn distinct_keys(table: Seq<PairView>) -> bool {
    forall|i: int, j: int| 0 <= i < j < table.len() ==> table[i].key != table[j].key
}

proof fn lemma_key_place(table: Seq<PairView>, key: Seq<char>)
    ensures
        -1 <= key_place(table, key) < table.len(),
        key_place(table, key) >= 0 ==> table[key_place(table, key)].key == key,
        key_place(table, key) < 0 ==> forall|i: int| 0 <= i < table.len() ==> table[i].key != key,
        last_field(table, key) == if key_place(table, key) >= 0 {
            Some(table[key_place(table, key)])
        } else {
            None
        },
    decreases table.len(),
{
    if table.len() > 0 && table.last().key != key {
        let t = table.drop_last();
        lemma_key_place(t, key);
        if key_place(t, key) < 0 {
            assert forall|i: int| 0 <= i < table.len() implies table[i].key != key by {
                if i < t.len() {
                    assert(t[i].key != key);
                }
            }
        }
    }
}

/// In a table without double keys a field is found under its key.
proof fn lemma_last_field_unique(table: Seq<PairView>, i: int)
    requires
        distinct_keys(table),
        0 <= i < table.len(),
    ensures
        last_field(table, table[i].key) == Some(table[i]),
{
    let key = table[i].key;
    lemma_key_place(table, key);
    let k = key_place(table, key);
    if k < 0 {
        assert(table[i].key != key);
    } else if k < i {
        assert(table[k].key != table[i].key);
    } else if i < k {
        assert(table[i].key != table[k].key);
    }
}

proof fn lemma_table_with(table: Seq<PairView>, p: PairView)
    requires
        distinct_keys(table),
    ensures
        distinct_keys(table_with(table, p)),
        forall|key: Seq<char>| #[trigger]
            last_field(table_with(table, p), key) == if p.key == key {
                Some(p)
            } else {
                last_field(table, key)
            },
{
    let t = table_with(table, p);
    let k = key_place(table, p.key);
    lemma_key_place(table, p.key);
    assert(distinct_keys(t)) by {
        assert forall|i: int, j: int| 0 <= i < j < t.len() implies t[i].key != t[j].key by {
            if k >= 0 {
                assert(t[i].key == table[i].key);
                assert(t[j].key == table[j].key);
            } else if j == table.len() {
                assert(table[i].key != p.key);
            }
        }
    }
    assert forall|key: Seq<char>| #[trigger]
        last_field(t, key) == if p.key == key {
            Some(p)
        } else {
            last_field(table, key)
        } by {
        lemma_key_place(t, key);
        lemma_key_place(table, key);
        let a = key_place(t, key);
        let b = key_place(table, key);
        if p.key == key {
            if k >= 0 {
                lemma_last_field_unique(t, k);
            } else {
                lemma_last_field_unique(t, table.len() as int);
            }
        } else {
            if a >= 0 {
                if k >= 0 {
                    assert(a != k);
                    assert(table[a] == t[a]);
                } else {
                    assert(a < table.len());
                    assert(table[a] == t[a]);
                }
                lemma_last_field_unique(table, a);
            } else if b >= 0 {
                assert(t[b].key == table[b].key);
            }
        }
    }
}

/// The table of fields says of each key what the fields say of it, and holds no key twice.
pub proof fn law_field_table(pairs: Seq<PairView>)
    ensures
        distinct_keys(field_table(pairs)),
        forall|key: Seq<char>| #[trigger]
            last_field(field_table(pairs), key) == last_field(pairs, key),
    decreases pairs.len(),
{
    if pairs.len() > 0 {
        law_field_table(pairs.drop_last());
        lemma_table_with(field_table(pairs.drop_last()), pairs.last());
    }
}

/// The fields of each song of the queue: a field `file` begins a song.
pub open spec fn song_groups(pairs: Seq<PairView>) -> Seq<Seq<PairView>>
    decreases pairs.len(),
{
    if pairs.len() == 0 {
        Seq::empty()
    } else {
        let before = song_groups(pairs.drop_last());
        let p = pairs.last();
        if before.len() == 0 || p.key == "file"@ {
            before.push(seq![p])
        } else {
            before.drop_last().push(before.last().push(p))
        }
    }
}

/// The songs of the queue.
pub open spec fn queue_of(pairs: Seq<PairView>) -> Seq<SongView> {
    let groups = song_groups(pairs);
    Seq::new(groups.len(), |i: int| song_of(field_table(groups[i])))
}

/// Songs, by their characters.
pub open spec fn song_views(songs: Seq<Song>) -> Seq<SongView> {
    Seq::new(songs.len(), |i: int| songs[i]@)
}

/// A field with the same content.
fn copy_of(p: &Pair) -> (r: Pair)
    ensures
        r@ == p@,
{
    Pair { key: p.key.clone(), value: p.value.clone(), number: p.number }
}

/// Puts a field into a table.
fn set_field(table: &mut Vec<Pair>, p: Pair)
    ensures
        fields(final(table)@) == table_with(fields(old(table)@), p@),
{
    let ghost before = fields(table@);
    let mut n: usize = table.len();
    assert(before.take(n as int) =~= before);
    while n > 0
        invariant
            n <= table@.len(),
            before == fields(table@),
            table@ == old(table)@,
            key_place(before, p@.key) == key_place(before.take(n as int), p@.key),
        decreases n,
    {
        assert(before.take(n as int).last() == before[n - 1]);
        assert(before.take(n as int).drop_last() =~= before.take(n - 1));
        assert(before[n - 1] == table@[n - 1]@);
        if same_text(table[n - 1].key.as_str(), p.key.as_str()) {
            table.set(n - 1, p);
            assert(fields(table@) =~= before.update(n - 1, p@));
            return;
        }
        n = n - 1;
    }
    table.push(p);
    assert(fields(table@) =~= before.push(p@));
}

/// The song that a table of fields describes.
pub fn song_from_map(map: &Vec<Pair>) -> (r: Song)
    ensures
        r@ == song_of(fields(map@)),
{
    song_from_pairs(map)
}

impl MpdClient {
    /// The song that the reply describes, if it says anything.
    pub fn currentsong(&self) -> (r: Option<Song>)
        ensures
            match r {
                Some(s) => self.pairs@.len() > 0 && s@ == song_of(fields(self.pairs@)),
                None => self.pairs@.len() == 0,
            },
    {
        if self.pairs.len() == 0 {
            None
        } else {
            Some(song_from_pairs(&self.pairs))
        }
    }

    /// The songs of the queue that the reply lists.
    pub fn playlistinfo(&self) -> (r: Vec<Song>)
        ensures
            song_views(r@) == queue_of(fields(self.pairs@)),
    {
        let ghost f = fields(self.pairs@);
        let mut songs: Vec<Song> = Vec::new();
        let mut current: Vec<Pair> = Vec::new();
        let mut i: usize = 0;
        while i < self.pairs.len()
            invariant
                i <= self.pairs@.len(),
                f == fields(self.pairs@),
                ({
                    let g = song_groups(f.take(i as int));
                    &&& current@.len() == 0 <==> i == 0
                    &&& i == 0 ==> g.len() == 0 && songs@.len() == 0
                    &&& i > 0 ==> {
                        &&& g.len() > 0
                        &&& fields(current@) == field_table(g.last())
                        &&& song_views(songs@) =~= Seq::new(
                            (g.len() - 1) as nat,
                            |k: int| song_of(field_table(g[k])),
                        )
                    }
                }),
            decreases self.pairs.len() - i,
        {
            let ghost g = song_groups(f.take(i as int));
            let p = &self.pairs[i];
            proof {
                assert(f.take(i + 1).drop_last() =~= f.take(i as int));
                assert(f.take(i + 1).last() == p@);
            }
            let ghost g2 = song_groups(f.take(i + 1));
            if same_text(p.key.as_str(), "file") && current.len() > 0 {
                let ghost before = song_views(songs@);
                let song = song_from_map(&current);
                songs.push(song);
                current = Vec::new();
                assert(song_views(songs@) =~= before.push(song_of(field_table(g.last()))));
            }
            let ghost base = fields(current@);
            set_field(&mut current, copy_of(p));
            proof {
                if i == 0 || p.key@ == "file"@ {
                    assert(g2 =~= g.push(seq![p@]));
                    assert(seq![p@].drop_last() =~= Seq::<PairView>::empty());
                    assert(base =~= Seq::<PairView>::empty());
                    assert(field_table(seq![p@].drop_last()) =~= base);
                } else {
                    assert(g2 =~= g.drop_last().push(g.last().push(p@)));
                    assert(g.last().push(p@).drop_last() =~= g.last());
                    assert(g.last().push(p@).last() == p@);
                }
                assert(fields(current@).len() == current@.len());
                lemma_key_place(base, p@.key);
            }
            i = i + 1;
        }
        assert(f.take(i as int) =~= f);
        if current.len() > 0 {
            let ghost before = song_views(songs@);
            let song = song_from_map(&current);
            songs.push(song);
            assert(song_views(songs@) =~= before.push(song@));
        }
        assert(song_views(songs@) =~= queue_of(f));
        songs
    }
}

/// The number of fields that begin a song.
pub open spec fn song_starts(pairs: Seq<PairView>) -> nat
    decreases pairs.len(),
{
    if pairs.len() == 0 {
        0
    } else {
        song_starts(pairs.drop_last()) + if pairs.last().key == "file"@ {
            1nat
        } else {
            0
        }
    }
}

/// The queue holds a song for each `file` of the reply; what comes before the first makes one more.
pub proof fn law_queue_length(pairs: Seq<PairView>)
    ensures
        queue_of(pairs).len() == song_starts(pairs) + if pairs.len() > 0 && pairs[0].key
            != "file"@ {
            1nat
        } else {
            0
        },
    decreases pairs.len(),
{
    if pairs.len() > 1 {
        law_queue_length(pairs.drop_last());
        assert(song_groups(pairs.drop_last()).len() > 0) by {
            reveal_with_fuel(song_groups, 2);
        }
    } else if pairs.len() == 1 {
        assert(pairs.drop_last() =~= Seq::<PairView>::empty());
        reveal_with_fuel(song_groups, 2);
        reveal_with_fuel(song_starts, 2);
    }
}

} // verus!
