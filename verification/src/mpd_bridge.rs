//! The bridge between the music player and a device.
use crate::config_manager::MpdConfig;
use crate::error::McubResult;
use crate::json::{envelope, object_text, quoted, Members};
use crate::mpd_client::{
    i32_value, or_zero, song_views, volume_within, Command, MpdClient, Song, SongView, State, Status,
};
use crate::pieces::{find_last, last_place, lemma_last_place, split_first, split_text};
use crate::reconnection::{elapsed, elapsed_ns, Attempt, Reconnection};
use crate::text::{
    dec2, dec2_text, dec_int, dec_int_text, digit_test, is_digit, opt_view, read_i32, same_text,
    text_of, to_chars, to_upper, upper,
};
use vstd::prelude::*;
use vstd::string::*;

verus! {

// ---------------------------------------------------------------------------
// Texts of the display
// ---------------------------------------------------------------------------

/// A number of seconds as minutes and seconds.
pub open spec fn mmss(seconds: u32) -> Seq<char> {
    dec2((seconds / 60) as nat) + ":"@ + dec2((seconds % 60) as nat)
}

/// A number of seconds as hours, minutes and seconds.
pub open spec fn hhmmss(seconds: u32) -> Seq<char> {
    dec2((seconds / 3600) as nat) + ":"@ + dec2(((seconds % 3600) / 60) as nat) + ":"@ + dec2(
        (seconds % 60) as nat,
    )
}

/// A switch, as the display shows it.
pub open spec fn flag_text(b: bool) -> Seq<char> {
    if b {
        "1"@
    } else {
        "0"@
    }
}

/// The number of a track: the digits before the first slash, or 0 where there are none.
pub open spec fn track_number(s: Seq<char>) -> Seq<char> {
    let primary = match split_first(s, "/"@) {
        Some((a, b)) => a,
        None => s,
    };
    let digits = primary.filter(|c: char| is_digit(c));
    if digits.len() == 0 {
        "0"@
    } else {
        digits
    }
}

/// What stands behind the last `c`, or everything.
pub open spec fn after_last(s: Seq<char>, c: char) -> Seq<char> {
    s.skip(last_place(s, c) + 1)
}

/// What stands before the last `c`, or everything.
pub open spec fn before_last(s: Seq<char>, c: char) -> Seq<char> {
    if last_place(s, c) >= 0 {
        s.take(last_place(s, c))
    } else {
        s
    }
}

pub fn format_mmss(seconds: u32) -> (r: String)
    ensures
        r@ == mmss(seconds),
{
    let mut r = dec2_text((seconds / 60) as u64);
    r.append(":");
    r.append(dec2_text((seconds % 60) as u64).as_str());
    r
}

pub fn format_hhmmss(seconds: u32) -> (r: String)
    ensures
        r@ == hhmmss(seconds),
{
    let mut r = dec2_text((seconds / 3600) as u64);
    r.append(":");
    r.append(dec2_text(((seconds % 3600) / 60) as u64).as_str());
    r.append(":");
    r.append(dec2_text((seconds % 60) as u64).as_str());
    r
}

pub fn bool_str(b: bool) -> (r: String)
    ensures
        r@ == flag_text(b),
{
    if b {
        "1".to_owned()
    } else {
        "0".to_owned()
    }
}

pub fn clean_track(s: &str) -> (r: String)
    ensures
        r@ == track_number(s@),
{
    let primary = match split_text(s, "/") {
        Some((a, b)) => a,
        None => s.to_owned(),
    };
    let v = to_chars(primary.as_str());
    let mut digits = String::new();
    let mut none: bool = true;
    let mut i: usize = 0;
    let ghost pred = |c: char| is_digit(c);
    assert(v@.take(0).filter(pred) =~= Seq::<char>::empty()) by {
        reveal(Seq::filter);
    }
    while i < v.len()
        invariant
            i <= v@.len(),
            pred == (|c: char| is_digit(c)),
            digits@ == v@.take(i as int).filter(pred),
            none == (digits@.len() == 0),
        decreases v.len() - i,
    {
        proof {
            assert(v@.take(i + 1).drop_last() =~= v@.take(i as int));
            assert(v@.take(i + 1).last() == v@[i as int]);
            reveal(Seq::filter);
        }
        if digit_test(v[i]) {
            digits.push(v[i]);
            none = false;
        }
        i = i + 1;
    }
    assert(v@.take(i as int) =~= primary@);
    if none {
        "0".to_owned()
    } else {
        digits
    }
}

/// What stands behind the last `c`, or everything.
fn tail_after(s: &str, c: char) -> (r: String)
    ensures
        r@ == after_last(s@, c),
{
    let v = to_chars(s);
    let n: usize = v.len();
    proof {
        lemma_last_place(v@, c);
    }
    let from: usize = match find_last(&v, c) {
        Some(i) => i + 1,
        None => 0,
    };
    let r = text_of(&v, from, n);
    assert(r@ =~= after_last(s@, c));
    r
}

/// What stands before the last `c`, or everything.
fn head_before(s: &str, c: char) -> (r: String)
    ensures
        r@ == before_last(s@, c),
{
    let v = to_chars(s);
    match find_last(&v, c) {
        Some(i) => {
            let r = text_of(&v, 0, i);
            assert(r@ =~= s@.take(i as int));
            r
        },
        None => s.to_owned(),
    }
}

// ---------------------------------------------------------------------------
// The state of the player, for the display
// ---------------------------------------------------------------------------

/// The state of the player as the display shows it.
#[derive(Debug)]
pub struct StateData {
    pub state: String,
    pub volume: String,
    pub elapsed: String,
    pub total: String,
    pub song_id: String,
    pub track_number: String,
    pub playlist_position: String,
    pub playlist_length: String,
    pub playlist_total_time: String,
    pub title: String,
    pub artist: String,
    pub album: String,
    pub genre: String,
    pub year: String,
    pub file_type: String,
    pub repeat: String,
    pub random: String,
    pub single: String,
    pub consume: String,
}

/// The letter of a state.
pub open spec fn state_letter(state: State) -> Seq<char> {
    match state {
        State::Play => "P"@,
        State::Pause => "U"@,
        State::Stop => "S"@,
    }
}

/// A tag of the song, or `Unknown`.
pub open spec fn tag_or_unknown(tag: Option<Seq<char>>) -> Seq<char> {
    match tag {
        Some(t) => t,
        None => "Unknown"@,
    }
}

/// The title of a song: its tag, or the name of its file without extension.
pub open spec fn title_of(song: SongView) -> Seq<char> {
    let t = tag_or_unknown(song.title);
    if t == "Unknown"@ {
        before_last(after_last(song.file, '/'), '.')
    } else {
        t
    }
}

/// The kind of a song's file: what stands behind the last dot of its path, in capitals.
pub open spec fn file_type_of(song: SongView) -> Seq<char> {
    let ext = after_last(song.file, '.');
    if last_place(song.file, '.') >= 0 && ext.len() > 0 {
        upper(ext)
    } else {
        "Unknown"@
    }
}

/// What the song says under a name that the display asks for; `Unknown` where no song is known.
pub open spec fn of_song(song: Option<SongView>, f: spec_fn(SongView) -> Seq<char>) -> Seq<char> {
    match song {
        Some(s) => f(s),
        None => "Unknown"@,
    }
}

/// The song that is shown: none, if the player has stopped.
pub open spec fn shown_song(status: Status, song: Option<SongView>) -> Option<SongView> {
    if status.state == State::Stop {
        None
    } else {
        song
    }
}

/// The members of the message that shows the state of the player. `total` is the length of all
/// songs of the queue, and `known` the current song, where it is known; it counts unless the player
/// has stopped.
pub open spec fn state_members(status: Status, total: u32, known: Option<SongView>) -> Seq<
    (Seq<char>, Seq<char>),
> {
    let song = shown_song(status, known);
    let pos = match status.song_pos {
        Some(p) => p as int,
        None => -1,
    };
    let id = match status.song_id {
        Some(p) => p as int,
        None => -1,
    };
    seq![
        ("state"@, state_letter(status.state)),
        ("volume"@, dec_int(status.volume as int)),
        ("elapsed"@, mmss((status.elapsed_ms / 1000) as u32)),
        ("total"@, mmss(status.duration_s)),
        (
            "song_id"@,
            if id >= 0 {
                dec_int(id)
            } else {
                "0"@
            },
        ),
        (
            "track_number"@,
            match song {
                Some(s) => match s.track {
                    Some(t) => track_number(t),
                    None => "0"@,
                },
                None => "0"@,
            },
        ),
        (
            "playlist_position"@,
            dec_int(
                if pos + 1 >= 0 {
                    pos + 1
                } else {
                    0
                },
            ),
        ),
        ("playlist_length"@, dec_int(status.queue_len as int)),
        ("playlist_total_time"@, hhmmss(total)),
        ("title"@, of_song(song, |s: SongView| title_of(s))),
        ("artist"@, of_song(song, |s: SongView| tag_or_unknown(s.artist))),
        ("album"@, of_song(song, |s: SongView| tag_or_unknown(s.album))),
        ("genre"@, of_song(song, |s: SongView| tag_or_unknown(s.genre))),
        ("year"@, of_song(song, |s: SongView| tag_or_unknown(s.date))),
        ("file_type"@, of_song(song, |s: SongView| file_type_of(s))),
        ("repeat"@, flag_text(status.repeat)),
        ("random"@, flag_text(status.random)),
        ("single"@, flag_text(status.single)),
        ("consume"@, flag_text(status.consume)),
    ]
}

impl StateData {
    /// The members of the message.
    pub open spec fn members(self) -> Seq<(Seq<char>, Seq<char>)> {
        seq![
            ("state"@, self.state@),
            ("volume"@, self.volume@),
            ("elapsed"@, self.elapsed@),
            ("total"@, self.total@),
            ("song_id"@, self.song_id@),
            ("track_number"@, self.track_number@),
            ("playlist_position"@, self.playlist_position@),
            ("playlist_length"@, self.playlist_length@),
            ("playlist_total_time"@, self.playlist_total_time@),
            ("title"@, self.title@),
            ("artist"@, self.artist@),
            ("album"@, self.album@),
            ("genre"@, self.genre@),
            ("year"@, self.year@),
            ("file_type"@, self.file_type@),
            ("repeat"@, self.repeat@),
            ("random"@, self.random@),
            ("single"@, self.single@),
            ("consume"@, self.consume@),
        ]
    }
}

/// Each value of the members as a JSON string.
pub open spec fn quoted_members(members: Seq<(Seq<char>, Seq<char>)>) -> Seq<
    (Seq<char>, Seq<char>),
> {
    Seq::new(members.len(), |i: int| (members[i].0, quoted(members[i].1)))
}

/// The message that shows the state of the player.
pub open spec fn state_message(members: Seq<(Seq<char>, Seq<char>)>) -> Seq<char> {
    envelope("m"@, object_text(quoted_members(members)))
}

/// The tag, or `Unknown`.
fn known(tag: &Option<String>) -> (r: String)
    ensures
        r@ == tag_or_unknown(opt_view(*tag)),
{
    match tag {
        Some(t) => t.clone(),
        None => "Unknown".to_owned(),
    }
}

/// The title of a song.
fn song_title(song: &Song) -> (r: String)
    ensures
        r@ == title_of(song@),
{
    let t = known(&song.title);
    if same_text(t.as_str(), "Unknown") {
        let name = tail_after(song.file.as_str(), '/');
        head_before(name.as_str(), '.')
    } else {
        t
    }
}

/// The kind of a song's file.
fn song_file_type(song: &Song) -> (r: String)
    ensures
        r@ == file_type_of(song@),
{
    let v = to_chars(song.file.as_str());
    match find_last(&v, '.') {
        Some(i) => {
            let ext = tail_after(song.file.as_str(), '.');
            if ext.as_str().is_empty() {
                "Unknown".to_owned()
            } else {
                to_upper(ext.as_str())
            }
        },
        None => "Unknown".to_owned(),
    }
}

impl StateData {
    /// The state of the player as the display shows it, before anything is known of the song.
    fn of_status(status: &Status, total: u32) -> (r: StateData)
        requires
            status.song_pos matches Some(p) ==> p < i32::MAX,
        ensures
            r.members() == state_members(*status, total, None),
    {
        let song_pos: i32 = match status.song_pos {
            Some(p) => p,
            None => -1,
        };
        let song_id: i32 = match status.song_id {
            Some(p) => p,
            None => -1,
        };
        let unknown = "Unknown";
        StateData {
            state: match status.state {
                State::Play => "P".to_owned(),
                State::Pause => "U".to_owned(),
                State::Stop => "S".to_owned(),
            },
            volume: dec_int_text(status.volume as i64),
            elapsed: format_mmss((status.elapsed_ms / 1000) as u32),
            total: format_mmss(status.duration_s),
            song_id: if song_id >= 0 {
                dec_int_text(song_id as i64)
            } else {
                "0".to_owned()
            },
            track_number: "0".to_owned(),
            playlist_position: if song_pos + 1 >= 0 {
                dec_int_text((song_pos + 1) as i64)
            } else {
                dec_int_text(0)
            },
            playlist_length: dec_int_text(status.queue_len as i64),
            playlist_total_time: format_hhmmss(total),
            title: unknown.to_owned(),
            artist: unknown.to_owned(),
            album: unknown.to_owned(),
            genre: unknown.to_owned(),
            year: unknown.to_owned(),
            file_type: unknown.to_owned(),
            repeat: bool_str(status.repeat),
            random: bool_str(status.random),
            single: bool_str(status.single),
            consume: bool_str(status.consume),
        }
    }

    /// The state of the player as the display shows it. `total` is the length of all songs of the
    /// queue in seconds, and `song` the current song, where it is known.
    pub fn new(status: &Status, total: u32, song: Option<&Song>) -> (r: StateData)
        requires
            status.song_pos matches Some(p) ==> p < i32::MAX,
        ensures
            r.members() == state_members(
                *status,
                total,
                match song {
                    Some(s) => Some(s@),
                    None => None,
                },
            ),
    {
        let data = StateData::of_status(status, total);
        if status.state == State::Stop {
            assert(data.members() =~= state_members(
                *status,
                total,
                match song {
                    Some(s) => Some(s@),
                    None => None,
                },
            ));
            return data;
        }
        match song {
            None => data,
            Some(s) => {
                let ghost m0 = data.members();
                let ghost m1 = state_members(*status, total, None);
                assert(m0[0] == m1[0] && m0[1] == m1[1] && m0[2] == m1[2] && m0[3] == m1[3]
                    && m0[4] == m1[4] && m0[6] == m1[6] && m0[7] == m1[7] && m0[8] == m1[8]
                    && m0[15] == m1[15] && m0[16] == m1[16] && m0[17] == m1[17] && m0[18]
                    == m1[18]);
                StateData {
                    title: song_title(s),
                    artist: known(&s.artist),
                    album: known(&s.album),
                    genre: known(&s.genre),
                    year: known(&s.date),
                    track_number: match &s.track {
                        Some(t) => clean_track(t.as_str()),
                        None => "0".to_owned(),
                    },
                    file_type: song_file_type(s),
                    state: data.state,
                    volume: data.volume,
                    elapsed: data.elapsed,
                    total: data.total,
                    song_id: data.song_id,
                    playlist_position: data.playlist_position,
                    playlist_length: data.playlist_length,
                    playlist_total_time: data.playlist_total_time,
                    repeat: data.repeat,
                    random: data.random,
                    single: data.single,
                    consume: data.consume,
                }
            },
        }
    }

    /// The message that shows the state of the player.
    pub fn message(&self) -> (r: String)
        ensures
            r@ == state_message(self.members()),
    {
        let m = Members::new();
        let m = m.push_text("state", self.state.as_str());
        let m = m.push_text("volume", self.volume.as_str());
        let m = m.push_text("elapsed", self.elapsed.as_str());
        let m = m.push_text("total", self.total.as_str());
        let m = m.push_text("song_id", self.song_id.as_str());
        let m = m.push_text("track_number", self.track_number.as_str());
        let m = m.push_text("playlist_position", self.playlist_position.as_str());
        let m = m.push_text("playlist_length", self.playlist_length.as_str());
        let m = m.push_text("playlist_total_time", self.playlist_total_time.as_str());
        let m = m.push_text("title", self.title.as_str());
        let m = m.push_text("artist", self.artist.as_str());
        let m = m.push_text("album", self.album.as_str());
        let m = m.push_text("genre", self.genre.as_str());
        let m = m.push_text("year", self.year.as_str());
        let m = m.push_text("file_type", self.file_type.as_str());
        let m = m.push_text("repeat", self.repeat.as_str());
        let m = m.push_text("random", self.random.as_str());
        let m = m.push_text("single", self.single.as_str());
        let m = m.push_text("consume", self.consume.as_str());
        assert(m@ =~= quoted_members(self.members()));
        m.envelope("m")
    }
}

// ---------------------------------------------------------------------------
// What the bridge remembers
// ---------------------------------------------------------------------------

/// What the bridge remembers of the player.
#[derive(Debug, Clone, Copy)]
pub struct Cache {
    pub playlist_time: u32,
    pub playlist_length: i32,
    pub elapsed_ms: u64,
    pub state: Option<State>,
    pub last_stop: Option<u64>,
    pub stop_count: u32,
    pub mpd_connected: bool,
    pub mpd_error_logged: bool,
}

/// The bridge. `client` is set while there is a connection to ask.
#[derive(Debug, Clone, Copy)]
pub struct MpdBridge {
    pub cache: Cache,
    pub client: bool,
    pub reconnection: Reconnection,
    pub update_interval_ns: u64,
    pub last_update: Option<u64>,
}

/// The rest between two turns of the main loop, in milliseconds.
pub const TURN_REST_MS: u64 = 10;

/// Two stops within this time go back to the first song.
pub const STOP_WINDOW_NS: u64 = 3_000_000_000;

/// What is to be asked next for the state of the player, or the state.
#[derive(Debug)]
pub enum StateStep {
    /// There is no connection: nothing is asked, and no state is told.
    NoClient,
    /// The status is to be asked for.
    AskStatus,
    /// The player did not answer. `report` is set where that is news.
    Lost { report: bool },
    /// The songs of the queue are to be asked for.
    AskPlaylist,
    /// The current song is to be asked for. The length of the queue is known.
    AskSong { total: u32 },
    /// Nothing more is to be asked. The length of the queue is known.
    Ready { total: u32 },
}

/// The length of all songs together.
pub open spec fn total_length(songs: Seq<SongView>) -> nat
    decreases songs.len(),
{
    if songs.len() == 0 {
        0
    } else {
        total_length(songs.drop_last()) + match songs.last().duration_s {
            Some(n) => n as nat,
            None => 0,
        }
    }
}

proof fn lemma_total_grows(songs: Seq<SongView>, i: int)
    requires
        0 <= i <= songs.len(),
    ensures
        total_length(songs.take(i)) <= total_length(songs),
    decreases songs.len() - i,
{
    if i < songs.len() {
        lemma_total_grows(songs, i + 1);
        assert(songs.take(i + 1).drop_last() =~= songs.take(i));
    } else {
        assert(songs.take(i) =~= songs);
    }
}

/// The length of all songs together.
fn sum_lengths(songs: &Vec<Song>) -> (r: u32)
    requires
        total_length(song_views(songs@)) <= u32::MAX,
    ensures
        r == total_length(song_views(songs@)),
{
    let ghost v = song_views(songs@);
    let mut total: u32 = 0;
    let mut i: usize = 0;
    while i < songs.len()
        invariant
            i <= songs@.len(),
            v == song_views(songs@),
            total_length(v) <= u32::MAX,
            total == total_length(v.take(i as int)),
        decreases songs.len() - i,
    {
        proof {
            assert(v.take(i + 1).drop_last() =~= v.take(i as int));
            assert(v.take(i + 1).last() == songs@[i as int]@);
            lemma_total_grows(v, i + 1);
        }
        match songs[i].duration_s {
            Some(n) => {
                total = total + n;
            },
            None => {},
        }
        i = i + 1;
    }
    assert(v.take(i as int) =~= v);
    total
}

/// What comes after the length of the queue is known: the current song is asked for unless the
/// player has stopped.
pub open spec fn step_with_total(status: Status, total: u32) -> StateStep {
    if status.state == State::Stop {
        StateStep::Ready { total }
    } else {
        StateStep::AskSong { total }
    }
}

impl Cache {
    /// The length of the queue is known: it has not changed since it was last summed up.
    pub open spec fn knows_length(self, playlist_length: i32) -> bool {
        self.playlist_length == playlist_length && playlist_length > 0
    }
}

impl MpdBridge {
    /// A bridge that has not connected yet.
    pub fn new(config: &MpdConfig) -> (r: MpdBridge)
        ensures
            r.cache == (Cache {
                playlist_time: 0,
                playlist_length: (-1) as i32,
                elapsed_ms: 0,
                state: None,
                last_stop: None,
                stop_count: 0,
                mpd_connected: false,
                mpd_error_logged: false,
            }),
            !r.client,
            r.reconnection == (Reconnection {
                max_attempts: config.reconnect.max_attempts,
                attempts: 0,
                base_delay: config.reconnect.delay_ns,
                current_delay: config.reconnect.delay_ns,
                last_attempt: None,
            }),
            r.update_interval_ns == config.update_interval_ns,
            r.last_update is None,
    {
        MpdBridge {
            cache: Cache {
                playlist_time: 0,
                playlist_length: -1,
                elapsed_ms: 0,
                state: None,
                last_stop: None,
                stop_count: 0,
                mpd_connected: false,
                mpd_error_logged: false,
            },
            client: false,
            reconnection: Reconnection::new(
                config.reconnect.max_attempts,
                config.reconnect.delay_ns,
            ),
            update_interval_ns: config.update_interval_ns,
            last_update: None,
        }
    }

    /// After an attempt to connect.
    pub open spec fn after_connect(self, connected: bool) -> MpdBridge {
        MpdBridge {
            client: connected,
            cache: if connected {
                Cache { mpd_connected: true, mpd_error_logged: false, ..self.cache }
            } else {
                self.cache
            },
            ..self
        }
    }

    /// Takes note of an attempt to connect. It ends the connection that was there before.
    pub fn connect(&mut self, connected: bool)
        ensures
            *final(self) == old(self).after_connect(connected),
    {
        self.client = connected;
        if connected {
            self.cache.mpd_connected = true;
            self.cache.mpd_error_logged = false;
        }
    }

    /// Ends the connection. Returns whether there was one.
    pub fn disconnect(&mut self) -> (r: bool)
        ensures
            r == old(self).client,
            *final(self) == (MpdBridge { client: false, ..*old(self) }),
    {
        let r = self.client;
        self.client = false;
        r
    }

    /// Whether an attempt to connect again is to be made now.
    pub fn attempt_reconnection(&mut self, now: u64) -> (r: Attempt)
        requires
            old(self).reconnection.attempts < u32::MAX,
        ensures
            r.allowed == old(self).reconnection.is_due(now),
            *final(self) == (MpdBridge {
                reconnection: if r.allowed {
                    old(self).reconnection.after_attempt(now)
                } else {
                    old(self).reconnection
                },
                ..*old(self)
            }),
            r.allowed ==> match r.report {
                Some(t) => old(self).reconnection.report_text("MPD"@) == Some(t@),
                None => old(self).reconnection.report_text("MPD"@) is None,
            },
            !r.allowed ==> r.report is None,
    {
        self.reconnection.should_attempt("MPD", now)
    }

    /// What is to be done about the connection at the end of a turn: nothing, as long as the player
    /// answers; otherwise an attempt to connect again may be made now.
    pub fn keep_connected(&mut self, now: u64) -> (r: Option<Attempt>)
        requires
            old(self).cache.mpd_connected || old(self).reconnection.attempts < u32::MAX,
        ensures
            r is Some <==> !old(self).cache.mpd_connected,
            match r {
                None => *final(self) == *old(self),
                Some(a) => {
                    &&& a.allowed == old(self).reconnection.is_due(now)
                    &&& *final(self) == (MpdBridge {
                        reconnection: if a.allowed {
                            old(self).reconnection.after_attempt(now)
                        } else {
                            old(self).reconnection
                        },
                        ..*old(self)
                    })
                    &&& match a.report {
                        Some(t) => a.allowed && old(self).reconnection.report_text("MPD"@) == Some(
                            t@,
                        ),
                        None => a.allowed ==> old(self).reconnection.report_text("MPD"@) is None,
                    }
                },
            },
    {
        if self.is_connected() {
            None
        } else {
            Some(self.attempt_reconnection(now))
        }
    }

    /// Takes note of the attempt to connect again. After a success the attempts start afresh.
    pub fn reconnected(&mut self, connected: bool)
        ensures
            *final(self) == (MpdBridge {
                reconnection: if connected {
                    Reconnection {
                        attempts: 0,
                        current_delay: old(self).reconnection.base_delay,
                        last_attempt: None,
                        ..old(self).reconnection
                    }
                } else {
                    old(self).reconnection
                },
                ..old(self).after_connect(connected)
            }),
    {
        self.connect(connected);
        if connected {
            self.reconnection.reset();
        }
    }

    /// The player answered the last time it was asked.
    pub fn is_connected(&self) -> (r: bool)
        ensures
            r == self.cache.mpd_connected,
    {
        self.cache.mpd_connected
    }

    /// The state is to be sent: the interval since it was last sent is over.
    pub open spec fn status_due(self, now: u64) -> bool {
        match self.last_update {
            Some(last) => elapsed(last, now) >= self.update_interval_ns,
            None => true,
        }
    }

    /// Whether the state is to be sent now. If so, it counts as sent.
    pub fn send_status(&mut self, now: u64) -> (r: bool)
        ensures
            r == old(self).status_due(now),
            *final(self) == if r {
                MpdBridge { last_update: Some(now), ..*old(self) }
            } else {
                *old(self)
            },
    {
        match self.last_update {
            Some(last) => {
                if elapsed_ns(last, now) < self.update_interval_ns {
                    return false;
                }
            },
            None => {},
        }
        self.last_update = Some(now);
        true
    }

    /// What is to be asked first for the state of the player: its status, if there is a connection.
    pub fn ask_state(&self) -> (r: StateStep)
        ensures
            r == if self.client {
                StateStep::AskStatus
            } else {
                StateStep::NoClient
            },
    {
        if self.client {
            StateStep::AskStatus
        } else {
            StateStep::NoClient
        }
    }

    /// What follows the status of the player, or that it could not be had. The length of the queue
    /// is asked for where the number of its songs has changed.
    pub open spec fn status_step(self, reply: McubResult<Status>) -> StateStep {
        if !self.client {
            StateStep::NoClient
        } else {
            match reply {
                Err(e) => StateStep::Lost { report: self.cache.loss_is_news() },
                Ok(status) => if self.cache.knows_length(status.queue_len) {
                    step_with_total(status, self.cache.playlist_time)
                } else {
                    StateStep::AskPlaylist
                },
            }
        }
    }

    /// What the bridge remembers of the status of the player, or of its loss.
    pub open spec fn after_status(self, reply: McubResult<Status>) -> MpdBridge {
        if !self.client {
            self
        } else {
            MpdBridge {
                cache: match reply {
                    Err(e) => self.cache.after_loss(),
                    Ok(status) => Cache {
                        elapsed_ms: status.elapsed_ms,
                        state: Some(status.state),
                        ..self.cache
                    },
                },
                ..self
            }
        }
    }

    /// Takes the status of the player, or that it could not be had, and says what is to be asked
    /// next.
    pub fn take_status(&mut self, reply: &McubResult<Status>) -> (r: StateStep)
        ensures
            r == old(self).status_step(*reply),
            *final(self) == old(self).after_status(*reply),
    {
        if !self.client {
            return StateStep::NoClient;
        }
        match reply {
            Err(_) => {
                let report = self.cache.mpd_connected && !self.cache.mpd_error_logged;
                if report {
                    self.cache.mpd_error_logged = true;
                }
                self.cache.mpd_connected = false;
                StateStep::Lost { report }
            },
            Ok(status) => {
                self.cache.elapsed_ms = status.elapsed_ms;
                self.cache.state = Some(status.state);
                if self.cache.playlist_length == status.queue_len && status.queue_len > 0 {
                    self.with_total(status, self.cache.playlist_time)
                } else {
                    StateStep::AskPlaylist
                }
            },
        }
    }

    fn with_total(&self, status: &Status, total: u32) -> (r: StateStep)
        ensures
            r == step_with_total(*status, total),
    {
        if status.state == State::Stop {
            StateStep::Ready { total }
        } else {
            StateStep::AskSong { total }
        }
    }

    /// Takes the songs of the queue, or that they could not be had, and says what is to be asked
    /// next. Without the songs the length that was last summed up holds.
    pub fn calculate_playlist_time(
        &mut self,
        status: &Status,
        reply: &McubResult<Vec<Song>>,
    ) -> (r: StateStep)
        requires
            reply matches Ok(songs) ==> total_length(song_views(songs@)) <= u32::MAX,
        ensures
            match *reply {
                Ok(songs) => {
                    let total = total_length(song_views(songs@)) as u32;
                    &&& r == step_with_total(*status, total)
                    &&& *final(self) == (MpdBridge {
                        cache: Cache {
                            playlist_time: total,
                            playlist_length: status.queue_len,
                            ..old(self).cache
                        },
                        ..*old(self)
                    })
                },
                Err(e) => {
                    &&& r == step_with_total(*status, old(self).cache.playlist_time)
                    &&& *final(self) == *old(self)
                },
            },
    {
        match reply {
            Ok(songs) => {
                let total = sum_lengths(songs);
                self.cache.playlist_time = total;
                self.cache.playlist_length = status.queue_len;
                self.with_total(status, total)
            },
            Err(_) => self.with_total(status, self.cache.playlist_time),
        }
    }

    /// The message that shows the state of the player. `song` is the current song, where it is
    /// known; it is not shown if the player has stopped.
    pub fn build_state_json(status: &Status, total: u32, song: Option<&Song>) -> (r: String)
        requires
            status.song_pos matches Some(p) ==> p < i32::MAX,
        ensures
            r@ == state_message(
                state_members(
                    *status,
                    total,
                    match song {
                        Some(s) => Some(s@),
                        None => None,
                    },
                ),
            ),
    {
        StateData::new(status, total, song).message()
    }
}

// ---------------------------------------------------------------------------
// Commands of the device
// ---------------------------------------------------------------------------

/// The volume that a command asks for.
#[derive(Debug)]
pub enum VolumeParam {
    Text(String),
    /// A number; its value, where it is a whole number within the range of `i64`.
    Number(Option<i64>),
    Other,
}

/// The parameters of a command, as far as a command reads them.
#[derive(Debug)]
pub struct Params {
    /// The name of an action, where a text stands there.
    pub name: Option<String>,
    pub volume: Option<VolumeParam>,
}

/// A message of a device: its kind and, for a command, what it asks for.
#[derive(Debug)]
pub struct WireMessage {
    pub t: String,
    pub content: Option<WireCommand>,
}

/// What a command asks for.
#[derive(Debug)]
pub struct WireCommand {
    pub action: String,
    pub parameters: Option<Params>,
}

/// The message is a command.
pub open spec fn is_command(m: WireMessage) -> bool {
    m.t@ == "cmd"@ && m.content is Some
}

/// A mode of the player that a command switches.
#[derive(Debug, Clone, Copy, PartialEq, Eq, Structural)]
pub enum Mode {
    Repeat,
    Random,
    Single,
    Consume,
}

/// A command that waits for the status of the player.
#[derive(Debug, Clone, Copy, PartialEq, Eq, Structural)]
pub enum Pending {
    PlayPause,
    AdjustVolume(i32),
    Toggle(Mode),
}

/// What a command of the device leads to.
#[derive(Debug)]
pub enum Plan {
    /// The message is no command.
    NoCommand,
    /// Nothing.
    Nothing,
    /// The action with the given name is to be run.
    Exec(String),
    /// There is no connection to the player.
    NotConnected,
    /// There is no such command.
    Unknown,
    /// The requests are to be sent, in this order, up to the first that fails.
    Send(Vec<Command>),
    /// The status of the player is to be asked for first.
    AskStatus(Pending),
}

/// What is to be sent next.
#[derive(Debug)]
pub enum Request {
    Send(Command),
    /// Nothing more. The command succeeded, or failed.
    Done(McubResult<()>),
}

/// What follows `done` requests, the last of which ended so.
pub open spec fn request_after(requests: Seq<Command>, done: nat, last: McubResult<()>) -> Request {
    match last {
        Err(e) => Request::Done(Err(e)),
        Ok(_) => if done < requests.len() {
            Request::Send(requests[done as int])
        } else {
            Request::Done(last)
        },
    }
}

/// What a command of the device leads to, by its content.
pub enum PlanView {
    NoCommand,
    Nothing,
    Exec(Seq<char>),
    NotConnected,
    Unknown,
    Send(Seq<Command>),
    AskStatus(Pending),
}

impl View for Plan {
    type V = PlanView;

    open spec fn view(&self) -> PlanView {
        match self {
            Plan::NoCommand => PlanView::NoCommand,
            Plan::Nothing => PlanView::Nothing,
            Plan::Exec(name) => PlanView::Exec(name@),
            Plan::NotConnected => PlanView::NotConnected,
            Plan::Unknown => PlanView::Unknown,
            Plan::Send(commands) => PlanView::Send(commands@),
            Plan::AskStatus(p) => PlanView::AskStatus(*p),
        }
    }
}

/// The volume that the parameter stands for: a text that is no number, and a number that is no
/// whole number, mean 0. A larger number keeps its lower 32 bits.
pub open spec fn volume_asked(v: VolumeParam) -> Option<i32> {
    match v {
        VolumeParam::Text(s) => Some(or_zero(i32_value(s@))),
        VolumeParam::Number(Some(n)) => Some(n as i32),
        VolumeParam::Number(None) => Some(0),
        VolumeParam::Other => None,
    }
}

/// The command to set the volume: a negative volume lowers it by as much.
pub open spec fn volume_plan(params: Option<Params>) -> PlanView {
    match params {
        Some(p) => match p.volume {
            Some(v) => match volume_asked(v) {
                Some(vol) => if vol < 0 {
                    PlanView::AskStatus(Pending::AdjustVolume(vol))
                } else {
                    PlanView::Send(seq![Command::SetVolume(volume_within(vol as int) as i32)])
                },
                None => PlanView::Nothing,
            },
            None => PlanView::Nothing,
        },
        None => PlanView::Nothing,
    }
}

impl Cache {
    /// That the player is lost is news: it was there, and its loss was not told yet.
    pub open spec fn loss_is_news(self) -> bool {
        self.mpd_connected && !self.mpd_error_logged
    }

    /// What is remembered once the player is lost.
    pub open spec fn after_loss(self) -> Cache {
        Cache {
            mpd_connected: false,
            mpd_error_logged: self.mpd_error_logged || self.mpd_connected,
            ..self
        }
    }

    /// A stop came shortly before: this one goes back to the first song.
    pub open spec fn stops_again(self, now: u64) -> bool {
        self.stop_count >= 1 && match self.last_stop {
            Some(t) => elapsed(t, now) <= STOP_WINDOW_NS,
            None => false,
        }
    }
}

/// What a command of the device leads to.
pub open spec fn plan_of(
    bridge: MpdBridge,
    action: Seq<char>,
    params: Option<Params>,
    now: u64,
) -> PlanView {
    if action == "exec"@ {
        match params {
            Some(p) => match p.name {
                Some(name) => PlanView::Exec(name@),
                None => PlanView::Nothing,
            },
            None => PlanView::Nothing,
        }
    } else if !bridge.client {
        PlanView::NotConnected
    } else if action == "play_pause"@ {
        PlanView::AskStatus(Pending::PlayPause)
    } else if action == "next"@ {
        PlanView::Send(seq![Command::Next])
    } else if action == "previous"@ {
        if bridge.cache.state != Some(State::Stop) && bridge.cache.elapsed_ms > 2000 {
            PlanView::Send(seq![Command::SeekCurrent(0)])
        } else {
            PlanView::Send(seq![Command::Previous])
        }
    } else if action == "stop"@ {
        if bridge.cache.stops_again(now) {
            PlanView::Send(seq![Command::PlayPos(0), Command::Stop])
        } else {
            PlanView::Send(seq![Command::Stop])
        }
    } else if action == "volume_up"@ {
        PlanView::AskStatus(Pending::AdjustVolume(10))
    } else if action == "volume_down"@ {
        PlanView::AskStatus(Pending::AdjustVolume((-10) as i32))
    } else if action == "set_volume"@ {
        volume_plan(params)
    } else if action == "repeat"@ {
        PlanView::AskStatus(Pending::Toggle(Mode::Repeat))
    } else if action == "single"@ {
        PlanView::AskStatus(Pending::Toggle(Mode::Single))
    } else if action == "consume"@ {
        PlanView::AskStatus(Pending::Toggle(Mode::Consume))
    } else if action == "random"@ {
        PlanView::AskStatus(Pending::Toggle(Mode::Random))
    } else {
        PlanView::Unknown
    }
}

/// What the bridge remembers after a command of the device: only a stop that reaches the player
/// leaves a trace.
pub open spec fn cache_after(bridge: MpdBridge, action: Seq<char>, now: u64) -> Cache {
    if action != "exec"@ && bridge.client && action == "stop"@ {
        if bridge.cache.stops_again(now) {
            Cache { stop_count: 0, ..bridge.cache }
        } else {
            Cache { stop_count: 1, last_stop: Some(now), ..bridge.cache }
        }
    } else {
        bridge.cache
    }
}

/// A mode is on.
pub open spec fn mode_of(status: Status, mode: Mode) -> bool {
    match mode {
        Mode::Repeat => status.repeat,
        Mode::Random => status.random,
        Mode::Single => status.single,
        Mode::Consume => status.consume,
    }
}

/// The request that sets a mode.
pub open spec fn mode_command(mode: Mode, on: bool) -> Command {
    match mode {
        Mode::Repeat => Command::SetRepeat(on),
        Mode::Random => Command::SetRandom(on),
        Mode::Single => Command::SetSingle(on),
        Mode::Consume => Command::SetConsume(on),
    }
}

/// The request that a command leads to once the status is known.
pub open spec fn command_for(pending: Pending, status: Status) -> Command {
    match pending {
        Pending::PlayPause => if status.state == State::Stop {
            Command::Play
        } else {
            Command::Pause(status.state == State::Play)
        },
        Pending::AdjustVolume(delta) => Command::SetVolume(
            volume_within(status.volume + delta) as i32,
        ),
        Pending::Toggle(mode) => mode_command(mode, !mode_of(status, mode)),
    }
}

/// One request.
fn send_one(c: Command) -> (r: Plan)
    ensures
        r@ == PlanView::Send(seq![c]),
{
    let mut v: Vec<Command> = Vec::new();
    v.push(c);
    assert(v@ =~= seq![c]);
    Plan::Send(v)
}

impl MpdBridge {
    /// The requests for a stop.
    pub fn handle_stop(&mut self, now: u64) -> (r: Plan)
        requires
            old(self).client,
        ensures
            *final(self) == (MpdBridge {
                cache: if old(self).cache.stops_again(now) {
                    Cache { stop_count: 0, ..old(self).cache }
                } else {
                    Cache { stop_count: 1, last_stop: Some(now), ..old(self).cache }
                },
                ..*old(self)
            }),
            r@ == if old(self).cache.stops_again(now) {
                PlanView::Send(seq![Command::PlayPos(0), Command::Stop])
            } else {
                PlanView::Send(seq![Command::Stop])
            },
    {
        let recent = match self.cache.last_stop {
            Some(t) => elapsed_ns(t, now) <= STOP_WINDOW_NS,
            None => false,
        };
        if self.cache.stop_count >= 1 && recent {
            self.cache.stop_count = 0;
            let mut v: Vec<Command> = Vec::new();
            v.push(MpdClient::play_pos(0));
            v.push(MpdClient::stop());
            assert(v@ =~= seq![Command::PlayPos(0), Command::Stop]);
            Plan::Send(v)
        } else {
            self.cache.stop_count = 1;
            self.cache.last_stop = Some(now);
            send_one(MpdClient::stop())
        }
    }

    /// What the command to set the volume leads to.
    pub fn handle_set_volume(params: Option<&Params>) -> (r: Plan)
        ensures
            r@ == volume_plan(
                match params {
                    Some(p) => Some(*p),
                    None => None,
                },
            ),
    {
        match params {
            None => Plan::Nothing,
            Some(p) => match &p.volume {
                None => Plan::Nothing,
                Some(v) => {
                    let vol: i32 = match v {
                        VolumeParam::Text(s) => match read_i32(s.as_str()) {
                            Some(n) => n,
                            None => 0,
                        },
                        VolumeParam::Number(n) => match n {
                            Some(k) => {
                                #[verifier::truncate]
                                let low: i32 = *k as i32;
                                low
                            },
                            None => 0,
                        },
                        VolumeParam::Other => {
                            return Plan::Nothing;
                        },
                    };
                    if vol < 0 {
                        Plan::AskStatus(Pending::AdjustVolume(vol))
                    } else {
                        send_one(MpdClient::set_volume(vol))
                    }
                },
            },
        }
    }

    /// What a command of the device leads to.
    pub fn handle_command(&mut self, action: &str, params: Option<&Params>, now: u64) -> (r: Plan)
        ensures
            r@ == plan_of(
                *old(self),
                action@,
                match params {
                    Some(p) => Some(*p),
                    None => None,
                },
                now,
            ),
            *final(self) == (MpdBridge {
                cache: cache_after(*old(self), action@, now),
                ..*old(self)
            }),
    {
        proof {
            reveal_strlit("stop");
            reveal_strlit("play_pause");
            reveal_strlit("next");
            reveal_strlit("previous");
            assert("stop"@[0] != "next"@[0]);
        }
        if same_text(action, "exec") {
            return match params {
                Some(p) => match &p.name {
                    Some(name) => Plan::Exec(name.clone()),
                    None => Plan::Nothing,
                },
                None => Plan::Nothing,
            };
        }
        if !self.client {
            return Plan::NotConnected;
        }
        if same_text(action, "play_pause") {
            Plan::AskStatus(Pending::PlayPause)
        } else if same_text(action, "next") {
            send_one(MpdClient::next())
        } else if same_text(action, "previous") {
            let stopped = match self.cache.state {
                Some(s) => s == State::Stop,
                None => false,
            };
            if !stopped && self.cache.elapsed_ms > 2000 {
                send_one(MpdClient::seek_current(0))
            } else {
                send_one(MpdClient::previous())
            }
        } else if same_text(action, "stop") {
            self.handle_stop(now)
        } else if same_text(action, "volume_up") {
            Plan::AskStatus(Pending::AdjustVolume(10))
        } else if same_text(action, "volume_down") {
            Plan::AskStatus(Pending::AdjustVolume(-10))
        } else if same_text(action, "set_volume") {
            MpdBridge::handle_set_volume(params)
        } else if same_text(action, "repeat") {
            Plan::AskStatus(Pending::Toggle(Mode::Repeat))
        } else if same_text(action, "single") {
            Plan::AskStatus(Pending::Toggle(Mode::Single))
        } else if same_text(action, "consume") {
            Plan::AskStatus(Pending::Toggle(Mode::Consume))
        } else if same_text(action, "random") {
            Plan::AskStatus(Pending::Toggle(Mode::Random))
        } else {
            Plan::Unknown
        }
    }

    /// What a message of the device leads to: nothing, if it is no command.
    pub fn process_device_commands(&mut self, m: &WireMessage, now: u64) -> (r: Plan)
        ensures
            if is_command(*m) {
                let c = m.content->0;
                &&& r@ == plan_of(*old(self), c.action@, c.parameters, now)
                &&& *final(self) == (MpdBridge {
                    cache: cache_after(*old(self), c.action@, now),
                    ..*old(self)
                })
            } else {
                r@ == PlanView::NoCommand && *final(self) == *old(self)
            },
    {
        if !same_text(m.t.as_str(), "cmd") {
            return Plan::NoCommand;
        }
        match &m.content {
            None => Plan::NoCommand,
            Some(c) => match &c.parameters {
                Some(p) => self.handle_command(c.action.as_str(), Some(p), now),
                None => self.handle_command(c.action.as_str(), None, now),
            },
        }
    }

    /// What follows a request, of those that a command leads to, after `done` of them went well and
    /// the last of those ended so: the next one, unless it failed.
    pub fn next_request(requests: &Vec<Command>, done: usize, last: McubResult<()>) -> (r: Request)
        ensures
            r == request_after(requests@, done as nat, last),
    {
        match last {
            Err(e) => Request::Done(Err(e)),
            Ok(u) => if done < requests.len() {
                Request::Send(requests[done])
            } else {
                Request::Done(Ok(u))
            },
        }
    }

    /// The volume after a change, held between 0 and 100.
    pub fn adjust_volume(volume: i32, delta: i32) -> (r: Command)
        requires
            i32::MIN <= volume + delta <= i32::MAX,
        ensures
            r == Command::SetVolume(volume_within(volume + delta) as i32),
    {
        MpdClient::set_volume(volume + delta)
    }

    /// The request that switches a mode.
    pub fn toggle_flag(status: &Status, mode: Mode) -> (r: Command)
        ensures
            r == mode_command(mode, !mode_of(*status, mode)),
    {
        match mode {
            Mode::Repeat => MpdClient::set_repeat(!status.repeat),
            Mode::Random => MpdClient::set_random(!status.random),
            Mode::Single => MpdClient::set_single(!status.single),
            Mode::Consume => MpdClient::set_consume(!status.consume),
        }
    }

    /// The request that a command leads to once the status is known.
    pub fn resume(pending: Pending, status: &Status) -> (r: Command)
        requires
            pending matches Pending::AdjustVolume(delta) ==> i32::MIN <= status.volume + delta
                <= i32::MAX,
        ensures
            r == command_for(pending, *status),
    {
        match pending {
            Pending::PlayPause => {
                if status.state == State::Stop {
                    MpdClient::play()
                } else {
                    MpdClient::pause(status.state == State::Play)
                }
            },
            Pending::AdjustVolume(delta) => MpdBridge::adjust_volume(status.volume, delta),
            Pending::Toggle(mode) => MpdBridge::toggle_flag(status, mode),
        }
    }
}

/// What happened while the bridge comes up, or that it has run.
#[derive(Debug, Clone, Copy, PartialEq, Eq, Structural)]
pub enum MpdEvent {
    /// The line was opened, or could not be.
    Connected(bool),
    /// The player was reached, or could not be.
    PlayerReached(bool),
    /// The device gave its name, or did not.
    Identified(bool),
    /// A signal came, and the loop has ended.
    Ended,
}

/// What to do next.
#[derive(Debug, Clone, Copy, PartialEq, Eq, Structural)]
pub enum MpdStep {
    ReachPlayer,
    Identify,
    Loop,
    /// Leave with this exit code.
    Exit(i32),
}

/// What follows an event while the bridge comes up: a device that does not give its name is used
/// all the same.
pub open spec fn mpd_step(event: MpdEvent) -> MpdStep {
    match event {
        MpdEvent::Connected(true) => MpdStep::ReachPlayer,
        MpdEvent::PlayerReached(true) => MpdStep::Identify,
        MpdEvent::Identified(_) => MpdStep::Loop,
        MpdEvent::Ended => MpdStep::Exit(0),
        _ => MpdStep::Exit(1),
    }
}

impl MpdBridge {
    /// Goes on after an event while the bridge comes up, or leaves after it has run.
    pub fn run(event: MpdEvent) -> (r: MpdStep)
        ensures
            r == mpd_step(event),
    {
        match event {
            MpdEvent::Connected(ok) => if ok {
                MpdStep::ReachPlayer
            } else {
                MpdStep::Exit(1)
            },
            MpdEvent::PlayerReached(ok) => if ok {
                MpdStep::Identify
            } else {
                MpdStep::Exit(1)
            },
            MpdEvent::Identified(_) => MpdStep::Loop,
            MpdEvent::Ended => MpdStep::Exit(0),
        }
    }
}

// ---------------------------------------------------------------------------
// What holds of the bridge
// ---------------------------------------------------------------------------

/// To switch a mode twice restores it: once the player is in the mode that was asked for, the next
/// request asks for the one it was in before.
pub proof fn law_toggle_twice(mode: Mode, before: Status, after: Status)
    requires
        command_for(Pending::Toggle(mode), before) == mode_command(mode, mode_of(after, mode)),
    ensures
        command_for(Pending::Toggle(mode), after) == mode_command(mode, mode_of(before, mode)),
{
}

/// Whatever the device asks for, the volume that the player is asked for lies between 0 and 100.
pub proof fn law_volume_in_range(
    bridge: MpdBridge,
    action: Seq<char>,
    params: Option<Params>,
    now: u64,
    pending: Pending,
    status: Status,
)
    ensures
        command_for(pending, status) matches Command::SetVolume(v) ==> 0 <= v <= 100,
        plan_of(bridge, action, params, now) matches PlanView::Send(commands) ==> forall|i: int|
            0 <= i < commands.len() ==> (#[trigger] commands[i] matches Command::SetVolume(v) ==> 0
                <= v <= 100),
{
}

/// The key for play and pause starts a player that is stopped, and otherwise switches between
/// playing and pausing.
pub proof fn law_play_pause(status: Status)
    ensures
        command_for(Pending::PlayPause, status) == match status.state {
            State::Stop => Command::Play,
            State::Play => Command::Pause(true),
            State::Pause => Command::Pause(false),
        },
{
}

/// A second stop within three seconds goes back to the first song; a third one, however soon, is
/// an ordinary stop again.
pub proof fn law_double_stop(bridge: MpdBridge, first: u64, second: u64, third: u64)
    requires
        bridge.client,
        bridge.cache.stop_count == 0,
        first <= second <= first + STOP_WINDOW_NS,
    ensures
        ({
            let one = MpdBridge { cache: cache_after(bridge, "stop"@, first), ..bridge };
            let two = MpdBridge { cache: cache_after(one, "stop"@, second), ..bridge };
            &&& plan_of(bridge, "stop"@, None, first) == PlanView::Send(seq![Command::Stop])
            &&& plan_of(one, "stop"@, None, second) == PlanView::Send(
                seq![Command::PlayPos(0), Command::Stop],
            )
            &&& plan_of(two, "stop"@, None, third) == PlanView::Send(seq![Command::Stop])
        }),
{
    reveal_strlit("stop");
    reveal_strlit("exec");
    reveal_strlit("play_pause");
    reveal_strlit("next");
    reveal_strlit("previous");
    assert("stop"@[0] != "exec"@[0]);
    assert("stop"@[0] != "play_pause"@[0]);
    assert("stop"@[0] != "next"@[0]);
    assert("stop"@[0] != "previous"@[0]);
}

/// The loss of the player is told once, until it is reached again.
pub proof fn law_loss_told_once(cache: Cache)
    ensures
        !cache.after_loss().loss_is_news(),
        !cache.after_loss().after_loss().loss_is_news(),
        forall|b: MpdBridge| #[trigger] b.after_connect(true).cache.loss_is_news(),
{
}

/// Without a connection no request goes to the player.
pub proof fn law_no_connection_no_request(
    bridge: MpdBridge,
    action: Seq<char>,
    params: Option<Params>,
    now: u64,
)
    requires
        !bridge.client,
    ensures
        !(plan_of(bridge, action, params, now) is Send),
        !(plan_of(bridge, action, params, now) is AskStatus),
        cache_after(bridge, action, now) == bridge.cache,
{
}

/// A state is told exactly if there is a connection and the player answers. That it does not is
/// the one thing that ends the connection for the bridge; nothing else in the making of a state
/// touches it.
pub proof fn law_state_needs_an_answer(bridge: MpdBridge, reply: McubResult<Status>)
    ensures
        ({
            let step = bridge.status_step(reply);
            let after = bridge.after_status(reply);
            &&& (step is AskPlaylist || step is AskSong || step is Ready) <==> bridge.client
                && reply is Ok
            &&& after.client == bridge.client
            &&& after.cache.mpd_connected == if bridge.client && reply is Err {
                false
            } else {
                bridge.cache.mpd_connected
            }
        }),
{
}

/// Stops that lie more than three seconds apart are ordinary stops, each of them.
pub proof fn law_stops_apart(bridge: MpdBridge, first: u64, second: u64)
    requires
        bridge.client,
        !bridge.cache.stops_again(first),
        second > first + STOP_WINDOW_NS,
    ensures
        ({
            let one = MpdBridge { cache: cache_after(bridge, "stop"@, first), ..bridge };
            &&& plan_of(bridge, "stop"@, None, first) == PlanView::Send(seq![Command::Stop])
            &&& plan_of(one, "stop"@, None, second) == PlanView::Send(seq![Command::Stop])
            &&& !one.cache.stops_again(second)
        }),
{
    reveal_strlit("stop");
    reveal_strlit("exec");
    reveal_strlit("play_pause");
    reveal_strlit("next");
    reveal_strlit("previous");
    assert("stop"@[0] != "exec"@[0]);
    assert("stop"@[0] != "play_pause"@[0]);
    assert("stop"@[0] != "next"@[0]);
    assert("stop"@[0] != "previous"@[0]);
}

/// The requests that are sent from the one numbered `done` on, if request `i` would end in
/// `results[i]`.
pub open spec fn sent_from(
    requests: Seq<Command>,
    results: Seq<McubResult<()>>,
    done: nat,
) -> Seq<Command>
    decreases requests.len() - done,
{
    let last = if done == 0 {
        Ok(())
    } else {
        results[done - 1]
    };
    if done > requests.len() {
        Seq::empty()
    } else {
        match request_after(requests, done, last) {
            Request::Send(c) => if done < requests.len() {
                seq![c] + sent_from(requests, results, done + 1)
            } else {
                Seq::empty()
            },
            Request::Done(_) => Seq::empty(),
        }
    }
}

proof fn lemma_sent_from(
    requests: Seq<Command>,
    results: Seq<McubResult<()>>,
    done: nat,
    count: nat,
)
    requires
        results.len() == requests.len(),
        done <= count <= requests.len(),
        forall|i: int| 0 <= i < count - 1 ==> results[i] is Ok,
        count == requests.len() || (count > 0 && results[count - 1] is Err),
    ensures
        sent_from(requests, results, done) == requests.subrange(done as int, count as int),
    decreases count - done,
{
    if done < count {
        lemma_sent_from(requests, results, done + 1, count);
        assert(seq![requests[done as int]] + requests.subrange(done as int + 1, count as int)
            =~= requests.subrange(done as int, count as int));
    } else {
        assert(requests.subrange(done as int, count as int) =~= Seq::empty());
    }
}

/// The requests of a command are sent in their order, up to the first that fails and with it; if
/// none fails, all of them.
pub proof fn law_requests_until_failure(
    requests: Seq<Command>,
    results: Seq<McubResult<()>>,
    count: nat,
)
    requires
        results.len() == requests.len(),
        count <= requests.len(),
        forall|i: int| 0 <= i < count - 1 ==> results[i] is Ok,
        count == requests.len() || (count > 0 && results[count - 1] is Err),
    ensures
        sent_from(requests, results, 0) == requests.take(count as int),
{
    lemma_sent_from(requests, results, 0, count);
    assert(requests.subrange(0, count as int) =~= requests.take(count as int));
}

/// The bridge leaves with 1 exactly if the line could not be opened or the player not be reached,
/// and with 0 after its loop.
pub proof fn law_exit_codes(event: MpdEvent)
    ensures
        mpd_step(event) == MpdStep::Exit(1) <==> event == MpdEvent::Connected(false) || event
            == MpdEvent::PlayerReached(false),
        mpd_step(event) == MpdStep::Exit(0) <==> event == MpdEvent::Ended,
{
}

/// Of a player that has stopped no song is shown, whatever is known of it.
pub proof fn law_no_song_when_stopped(status: Status, total: u32, known: Option<SongView>)
    requires
        status.state == State::Stop,
    ensures
        state_members(status, total, known) == state_members(status, total, None),
{
}

} // verus!
