//! What holds of the messages on the wire.
use crate::json::{
    envelope, escaped, escaped_text, hex_char, members_text, numbers_text, object_text, quoted,
    spectrum_text,
};
use crate::mpd_bridge::{quoted_members, state_members, state_message};
use crate::mpd_client::{switch_text, Command, SongView, Status};
use crate::serial_comm::{no_line_feed, without_cr_bytes};
use crate::serial_queue::{binary_frame, json_line};
use crate::sysinfo_bridge::{wide, wide64, with_number, with_raw, with_text, SysinfoView};
use crate::text::{dec, dec_int, is_digit, law_dec_value};
use vstd::prelude::*;
use vstd::utf8::*;

verus! {

/// No control character stands in the text: it is one line.
pub open spec fn one_line(s: Seq<char>) -> bool {
    forall|i: int| 0 <= i < s.len() ==> (#[trigger] s[i]) as int >= 0x20
}

proof fn lemma_escape_one_line(c: char)
    ensures
        one_line(escaped(c)),
{
    let n = c as int;
    assert(n < 0x20 ==> hex_char(n / 16) as int >= 0x20);
    assert(hex_char(n % 16) as int >= 0x20);
}

proof fn lemma_escaped_one_line(s: Seq<char>)
    ensures
        one_line(escaped_text(s)),
    decreases s.len(),
{
    if s.len() > 0 {
        lemma_escaped_one_line(s.drop_last());
        lemma_escape_one_line(s.last());
    }
}

/// The JSON string of any text is one line.
pub proof fn law_quoted_one_line(s: Seq<char>)
    ensures
        one_line(quoted(s)),
{
    lemma_escaped_one_line(s);
}

proof fn lemma_members_one_line(members: Seq<(Seq<char>, Seq<char>)>)
    requires
        forall|i: int| 0 <= i < members.len() ==> one_line((#[trigger] members[i]).0) && one_line(
            members[i].1,
        ),
    ensures
        one_line(members_text(members)),
    decreases members.len(),
{
    if members.len() > 0 {
        assert forall|i: int| 0 <= i < members.drop_last().len() implies one_line(
            (#[trigger] members.drop_last()[i]).0,
        ) && one_line(members.drop_last()[i].1) by {
            assert(members.drop_last()[i] == members[i]);
        }
        lemma_members_one_line(members.drop_last());
        let (name, value) = members.last();
        assert(members.last() == members[members.len() - 1]);
    }
}

proof fn lemma_envelope_one_line(kind: Seq<char>, content: Seq<char>)
    requires
        one_line(kind),
        one_line(content),
    ensures
        one_line(envelope(kind, content)),
{
    reveal_strlit("{\"t\":\"");
    reveal_strlit("\",\"d\":");
    reveal_strlit("}");
}

/// The message that shows the state of the player is one line, whatever the tags of the song
/// hold: the line feed behind it is the only one.
pub proof fn law_state_message_one_line(status: Status, total: u32, song: Option<SongView>)
    ensures
        one_line(state_message(state_members(status, total, song))),
{
    let m = state_members(status, total, song);
    let q = quoted_members(m);
    reveal_strlit("state");
    reveal_strlit("volume");
    reveal_strlit("elapsed");
    reveal_strlit("total");
    reveal_strlit("song_id");
    reveal_strlit("track_number");
    reveal_strlit("playlist_position");
    reveal_strlit("playlist_length");
    reveal_strlit("playlist_total_time");
    reveal_strlit("title");
    reveal_strlit("artist");
    reveal_strlit("album");
    reveal_strlit("genre");
    reveal_strlit("year");
    reveal_strlit("file_type");
    reveal_strlit("repeat");
    reveal_strlit("random");
    reveal_strlit("single");
    reveal_strlit("consume");
    reveal_strlit("m");
    assert forall|i: int| 0 <= i < q.len() implies one_line((#[trigger] q[i]).0) && one_line(
        q[i].1,
    ) by {
        law_quoted_one_line(m[i].1);
        assert(one_line(m[i].0));
    }
    lemma_members_one_line(q);
    lemma_envelope_one_line("m"@, object_text(q));
}

proof fn lemma_dec_one_line(i: int)
    ensures
        one_line(dec_int(i)),
{
    if i < 0 {
        law_dec_value((-i) as nat);
        let d = dec((-i) as nat);
        assert forall|k: int| 0 <= k < dec_int(i).len() implies (#[trigger] dec_int(i)[k]) as int
            >= 0x20 by {
            if k > 0 {
                assert(is_digit(d[k - 1]));
            }
        }
    } else {
        law_dec_value(i as nat);
        assert forall|k: int| 0 <= k < dec_int(i).len() implies (#[trigger] dec_int(i)[k]) as int
            >= 0x20 by {
            assert(is_digit(dec(i as nat)[k]));
        }
    }
}

proof fn lemma_numbers_one_line(v: Seq<i32>)
    ensures
        one_line(numbers_text(v)),
    decreases v.len(),
{
    if v.len() > 0 {
        lemma_dec_one_line(v.last() as int);
        lemma_numbers_one_line(v.drop_last());
    }
}

/// The message of a spectrum is one line.
pub proof fn law_spectrum_one_line(v: Seq<i32>)
    ensures
        one_line(spectrum_text(v)),
{
    lemma_numbers_one_line(v);
    reveal_strlit("s");
    lemma_envelope_one_line("s"@, seq!['['] + numbers_text(v) + seq![']']);
}

proof fn lemma_switch_one_line(on: bool)
    ensures
        one_line(switch_text(on)),
{
    reveal_strlit("1");
    reveal_strlit("0");
}

/// A request to the player is one line.
pub proof fn law_request_one_line(c: Command)
    ensures
        one_line(c.text()),
{
    reveal_strlit("status");
    reveal_strlit("currentsong");
    reveal_strlit("playlistinfo");
    reveal_strlit("play");
    reveal_strlit("stop");
    reveal_strlit("next");
    reveal_strlit("previous");
    reveal_strlit("pause");
    reveal_strlit("pause ");
    reveal_strlit("play ");
    reveal_strlit("seekcur ");
    reveal_strlit("setvol ");
    reveal_strlit("repeat ");
    reveal_strlit("random ");
    reveal_strlit("single ");
    reveal_strlit("consume ");
    lemma_switch_one_line(true);
    lemma_switch_one_line(false);
    match c {
        Command::PlayPos(n) => {
            lemma_dec_one_line(n as int);
        },
        Command::SeekCurrent(n) => {
            lemma_dec_one_line(n as int);
        },
        Command::SetVolume(n) => {
            lemma_dec_one_line(n as int);
        },
        _ => {},
    }
}

/// Every member has a name and a value of one line.
pub open spec fn plain_members(m: Seq<(Seq<char>, Seq<char>)>) -> bool {
    forall|i: int| 0 <= i < m.len() ==> one_line((#[trigger] m[i]).0) && one_line(m[i].1)
}

proof fn lemma_plain_push(m: Seq<(Seq<char>, Seq<char>)>, name: Seq<char>, value: Seq<char>)
    requires
        plain_members(m),
        one_line(name),
        one_line(value),
    ensures
        plain_members(m.push((name, value))),
{
}

proof fn lemma_plain_number(m: Seq<(Seq<char>, Seq<char>)>, name: Seq<char>, value: Option<int>)
    requires
        plain_members(m),
        one_line(name),
    ensures
        plain_members(with_number(m, name, value)),
{
    if let Some(n) = value {
        lemma_dec_one_line(n);
        lemma_plain_push(m, name, dec_int(n));
    }
}

proof fn lemma_plain_text(m: Seq<(Seq<char>, Seq<char>)>, name: Seq<char>, value: Option<Seq<char>>)
    requires
        plain_members(m),
        one_line(name),
    ensures
        plain_members(with_text(m, name, value)),
{
    if let Some(s) = value {
        law_quoted_one_line(s);
        lemma_plain_push(m, name, quoted(s));
    }
}

/// The message that tells of the machine is one line, as long as the number for the temperature is.
pub proof fn law_sysinfo_message_one_line(d: SysinfoView)
    requires
        d.temp matches Some(t) ==> one_line(t),
    ensures
        one_line(d.message()),
{
    reveal_strlit("cpu");
    reveal_strlit("temp");
    reveal_strlit("mem");
    reveal_strlit("disk");
    reveal_strlit("load");
    reveal_strlit("up");
    reveal_strlit("ip");
    reveal_strlit("freq");
    reveal_strlit("time");
    reveal_strlit("sys");
    let m0 = with_number(Seq::empty(), "cpu"@, wide(d.cpu));
    lemma_plain_number(Seq::empty(), "cpu"@, wide(d.cpu));
    let m1 = with_raw(m0, "temp"@, d.temp);
    assert(plain_members(m1));
    let m2 = with_number(m1, "mem"@, wide(d.mem));
    lemma_plain_number(m1, "mem"@, wide(d.mem));
    let m3 = with_number(m2, "disk"@, wide(d.disk));
    lemma_plain_number(m2, "disk"@, wide(d.disk));
    let m4 = with_text(m3, "load"@, d.load);
    lemma_plain_text(m3, "load"@, d.load);
    let m5 = with_number(m4, "up"@, wide64(d.up));
    lemma_plain_number(m4, "up"@, wide64(d.up));
    let m6 = with_text(m5, "ip"@, d.ip);
    lemma_plain_text(m5, "ip"@, d.ip);
    let m7 = with_number(m6, "freq"@, wide(d.freq));
    lemma_plain_number(m6, "freq"@, wide(d.freq));
    lemma_plain_text(m7, "time"@, Some(d.time));
    lemma_members_one_line(d.members());
    lemma_envelope_one_line("sys"@, object_text(d.members()));
}

// ---------------------------------------------------------------------------
// Texts stay apart
// ---------------------------------------------------------------------------

proof fn lemma_escaped_front(s: Seq<char>)
    requires
        s.len() > 0,
    ensures
        escaped_text(s) == escaped(s[0]) + escaped_text(s.skip(1)),
    decreases s.len(),
{
    if s.len() == 1 {
        assert(s.drop_last() =~= Seq::<char>::empty());
        assert(s.skip(1) =~= Seq::<char>::empty());
        assert(escaped_text(s.drop_last()) =~= Seq::<char>::empty());
        assert(escaped_text(s.skip(1)) =~= Seq::<char>::empty());
        assert(escaped_text(s) =~= escaped(s[0]));
        assert(escaped(s[0]) + Seq::<char>::empty() =~= escaped(s[0]));
    } else {
        let t = s.drop_last();
        lemma_escaped_front(t);
        assert(t.skip(1) =~= s.skip(1).drop_last());
        assert(s.skip(1).last() == s.last());
        assert(escaped_text(s) =~= escaped(s[0]) + escaped_text(s.skip(1)));
    }
}

/// What begins with the escapes of two characters begins with two equal characters.
proof fn lemma_escaped_prefix(c: char, d: char, x: Seq<char>, y: Seq<char>)
    requires
        escaped(c) + x == escaped(d) + y,
    ensures
        c == d,
        x == y,
{
    let l = escaped(c) + x;
    let r = escaped(d) + y;
    assert(l[0] == r[0]);
    assert(l[0] == escaped(c)[0]);
    assert(r[0] == escaped(d)[0]);
    if escaped(c).len() > 1 || escaped(d).len() > 1 {
        assert(escaped(c).len() > 1 && escaped(d).len() > 1);
        assert(l[1] == r[1]);
        assert(l[1] == escaped(c)[1]);
        assert(r[1] == escaped(d)[1]);
        if escaped(c).len() == 6 || escaped(d).len() == 6 {
            assert(escaped(c)[1] == 'u' && escaped(d)[1] == 'u');
            assert(escaped(c).len() == 6 && escaped(d).len() == 6);
            assert(l[4] == r[4] && l[5] == r[5]);
            assert(l[4] == escaped(c)[4] && r[4] == escaped(d)[4]);
            assert(l[5] == escaped(c)[5] && r[5] == escaped(d)[5]);
            assert((c as int) / 16 == (d as int) / 16);
            assert((c as int) % 16 == (d as int) % 16);
        }
    }
    assert(c == d);
    let n = escaped(c).len() as int;
    assert(x =~= l.skip(n));
    assert(y =~= r.skip(n));
}

proof fn lemma_escaped_injective(a: Seq<char>, b: Seq<char>)
    requires
        escaped_text(a) == escaped_text(b),
    ensures
        a == b,
    decreases a.len(),
{
    if a.len() == 0 {
        if b.len() > 0 {
            lemma_escaped_front(b);
            assert(escaped(b[0]).len() > 0);
            assert(escaped_text(b).len() > 0);
        }
        assert(a =~= b);
    } else if b.len() == 0 {
        lemma_escaped_front(a);
        assert(escaped(a[0]).len() > 0);
        assert(escaped_text(a).len() > 0);
    } else {
        lemma_escaped_front(a);
        lemma_escaped_front(b);
        lemma_escaped_prefix(a[0], b[0], escaped_text(a.skip(1)), escaped_text(b.skip(1)));
        lemma_escaped_injective(a.skip(1), b.skip(1));
        assert(a =~= seq![a[0]] + a.skip(1));
        assert(b =~= seq![b[0]] + b.skip(1));
    }
}

/// Two texts with the same JSON string are the same.
pub proof fn law_quoted_injective(a: Seq<char>, b: Seq<char>)
    requires
        quoted(a) == quoted(b),
    ensures
        a == b,
{
    let x = quoted(a);
    let y = quoted(b);
    assert(escaped_text(a) =~= x.subrange(1, x.len() - 1));
    assert(escaped_text(b) =~= y.subrange(1, y.len() - 1));
    lemma_escaped_injective(a, b);
}

// ---------------------------------------------------------------------------
// Lines
// ---------------------------------------------------------------------------

/// The byte is no control character.
pub open spec fn printable(b: u8) -> bool {
    b >= 0x20
}

proof fn lemma_scalar_printable(c: u32)
    requires
        is_scalar(c),
        c >= 0x20,
    ensures
        forall|i: int| 0 <= i < encode_scalar(c).len() ==> printable(#[trigger] encode_scalar(c)[i]),
{
    assert(c <= 0x7F ==> (c & 0x7F) as u8 == c) by (bit_vector);
    assert((0xC0u8 | ((c >> 6) & 0x1F) as u8) >= 0x20) by (bit_vector);
    assert((0xE0u8 | ((c >> 12) & 0x0F) as u8) >= 0x20) by (bit_vector);
    assert((0xF0u8 | ((c >> 18) & 0x7) as u8) >= 0x20) by (bit_vector);
    assert((0x80u8 | (c & 0x3F) as u8) >= 0x20) by (bit_vector);
    assert((0x80u8 | ((c >> 6) & 0x3F) as u8) >= 0x20) by (bit_vector);
    assert((0x80u8 | ((c >> 12) & 0x3F) as u8) >= 0x20) by (bit_vector);
}

proof fn lemma_char_printable(c: char)
    requires
        c as int >= 0x20,
    ensures
        forall|i: int|
            0 <= i < encode_scalar(c as u32).len() ==> printable(
                #[trigger] encode_scalar(c as u32)[i],
            ),
{
    char_is_scalar(c);
    lemma_scalar_printable(c as u32);
}

/// The bytes of a text without control characters hold none.
proof fn lemma_bytes_printable(s: Seq<char>)
    requires
        one_line(s),
    ensures
        forall|i: int| 0 <= i < encode_utf8(s).len() ==> printable(#[trigger] encode_utf8(s)[i]),
    decreases s.len(),
{
    if s.len() > 0 {
        let rest = s.drop_first();
        assert forall|i: int| 0 <= i < rest.len() implies (#[trigger] rest[i]) as int >= 0x20 by {
            assert(rest[i] == s[i + 1]);
        }
        lemma_bytes_printable(rest);
        assert(s[0] as int >= 0x20);
        lemma_char_printable(s[0]);
        let h = encode_scalar(s[0] as u32);
        assert forall|i: int| 0 <= i < encode_utf8(s).len() implies printable(
            #[trigger] encode_utf8(s)[i],
        ) by {
            if i < h.len() {
                assert(encode_utf8(s)[i] == h[i]);
            } else {
                assert(encode_utf8(s)[i] == encode_utf8(rest)[i - h.len()]);
            }
        }
    }
}

proof fn lemma_without_cr_same(bytes: Seq<u8>)
    requires
        forall|i: int| 0 <= i < bytes.len() ==> (#[trigger] bytes[i]) != 13,
    ensures
        without_cr_bytes(bytes) == bytes,
    decreases bytes.len(),
{
    if bytes.len() > 0 {
        let t = bytes.drop_last();
        assert forall|i: int| 0 <= i < t.len() implies (#[trigger] t[i]) != 13 by {
            assert(t[i] == bytes[i]);
        }
        lemma_without_cr_same(t);
        assert(bytes.last() == bytes[bytes.len() - 1]);
        assert(bytes =~= t.push(bytes.last()));
    } else {
        assert(without_cr_bytes(bytes) =~= bytes);
    }
}

/// It does not matter in which pieces bytes come.
pub proof fn law_chunks(a: Seq<u8>, b: Seq<u8>)
    ensures
        without_cr_bytes(a + b) == without_cr_bytes(a) + without_cr_bytes(b),
    decreases b.len(),
{
    if b.len() == 0 {
        assert(a + b =~= a);
        assert(without_cr_bytes(a) + Seq::<u8>::empty() =~= without_cr_bytes(a));
    } else {
        law_chunks(a, b.drop_last());
        assert((a + b).drop_last() =~= a + b.drop_last());
        assert((a + b).last() == b.last());
        assert(without_cr_bytes(a + b) =~= without_cr_bytes(a) + without_cr_bytes(b));
    }
}

/// A message of one line that was sent is read back: of what arrives, up to its first line feed,
/// the reader makes the message, whatever follows.
pub proof fn law_message_read_back(message: Seq<char>, rest: Seq<u8>, n: int)
    requires
        one_line(message),
        ({
            let arrived = without_cr_bytes(json_line(message) + rest);
            0 <= n < arrived.len() && arrived[n] == 10 && no_line_feed(arrived.take(n))
        }),
    ensures
        ({
            let line = without_cr_bytes(json_line(message) + rest).take(n);
            valid_utf8(line) && decode_utf8(line) == message
        }),
{
    let e = encode_utf8(message);
    let l = json_line(message);
    lemma_bytes_printable(message);
    assert forall|i: int| 0 <= i < l.len() implies (#[trigger] l[i]) != 13 by {
        if i < e.len() {
            assert(l[i] == e[i]);
            assert(printable(e[i]));
        }
    }
    lemma_without_cr_same(l);
    law_chunks(l, rest);
    let arrived = without_cr_bytes(l + rest);
    assert(arrived == l + without_cr_bytes(rest));
    let k = e.len() as int;
    assert(arrived[k] == 10);
    if n < k {
        assert(arrived[n] == e[n]);
        assert(printable(e[n]));
    } else if n > k {
        assert(arrived.take(n)[k] == 10);
    }
    assert(arrived.take(k) =~= e);
    encode_utf8_valid_utf8(message);
    encode_utf8_decode_utf8(message);
}

/// A binary frame holds its bars: the byte that begins it, the header, and then the bars.
pub proof fn law_frame_read_back(sync: u8, header: u8, bars: Seq<u8>)
    ensures
        binary_frame(sync, header, bars).len() == bars.len() + 2,
        binary_frame(sync, header, bars)[0] == sync,
        binary_frame(sync, header, bars)[1] == header,
        binary_frame(sync, header, bars).skip(2) == bars,
{
    assert(binary_frame(sync, header, bars).skip(2) =~= bars);
}

} // verus!
