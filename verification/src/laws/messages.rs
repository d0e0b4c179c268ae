//! What holds of the messages as a device reads them.
use crate::json::{
    envelope, escaped, escaped_text, members_text, numbers_text, object_text, quoted, spectrum_text,
};
use crate::laws::text::law_found;
use crate::mpd_bridge::{quoted_members, state_members, state_message, StateData};
use crate::mpd_client::{SongView, State, Status};
use crate::pieces::{contains_text, occurs_at, starts_with};
use crate::sysinfo_bridge::SysinfoView;
use vstd::prelude::*;
use vstd::string::*;

verus! {

// ---------------------------------------------------------------------------
// Texts
// ---------------------------------------------------------------------------

/// A text that holds no control character, no quote and no backslash stands in its quotes as it is.
pub proof fn law_plain_text(s: Seq<char>)
    requires
        forall|i: int| 0 <= i < s.len() ==> (#[trigger] s[i]) as int >= 0x20 && s[i] != '"' && s[i] != '\\',
    ensures
        quoted(s) == seq!['"'] + s + seq!['"'],
{
    lemma_plain_escaped(s);
}

proof fn lemma_plain_escaped(s: Seq<char>)
    requires
        forall|i: int| 0 <= i < s.len() ==> (#[trigger] s[i]) as int >= 0x20 && s[i] != '"' && s[i] != '\\',
    ensures
        escaped_text(s) == s,
    decreases s.len(),
{
    if s.len() == 0 {
        assert(escaped_text(s) =~= s);
    } else {
        let t = s.drop_last();
        assert forall|i: int| 0 <= i < t.len() implies (#[trigger] t[i]) as int >= 0x20 && t[i] != '"'
            && t[i] != '\\' by {
            assert(t[i] == s[i]);
        }
        lemma_plain_escaped(t);
        assert(s.last() == s[s.len() - 1]);
        assert(t + seq![s.last()] =~= s);
    }
}

/// A text in quotes is written part by part; a quote and a backslash have a backslash before them, and
/// a line feed, a carriage return and a tab are written as two characters.
pub proof fn law_escapes(a: Seq<char>, b: Seq<char>)
    ensures
        escaped_text(a + b) == escaped_text(a) + escaped_text(b),
        escaped('"') == seq!['\\', '"'],
        escaped('\\') == seq!['\\', '\\'],
        escaped('\n') == seq!['\\', 'n'],
        escaped('\r') == seq!['\\', 'r'],
        escaped('\t') == seq!['\\', 't'],
    decreases b.len(),
{
    if b.len() == 0 {
        assert(a + b =~= a);
        assert(escaped_text(a) + escaped_text(b) =~= escaped_text(a));
    } else {
        law_escapes(a, b.drop_last());
        assert((a + b).drop_last() =~= a + b.drop_last());
        assert((a + b).last() == b.last());
        assert(escaped_text(a + b) =~= escaped_text(a) + escaped_text(b));
    }
}

// ---------------------------------------------------------------------------
// Objects
// ---------------------------------------------------------------------------

/// The members of an object stand one after the other, each with its name in quotes and a colon before
/// its value, and a comma between any two.
pub proof fn law_members(m: Seq<(Seq<char>, Seq<char>)>, name: Seq<char>, value: Seq<char>)
    ensures
        members_text(Seq::empty()) == Seq::<char>::empty(),
        members_text(seq![(name, value)]) == seq!['"'] + name + seq!['"', ':'] + value,
        object_text(m) == seq!['{'] + members_text(m) + seq!['}'],
        envelope(name, value) == "{\"t\":\""@ + name + "\",\"d\":"@ + value + "}"@,
        m.len() > 0 ==> members_text(m.push((name, value))) == members_text(m) + seq![',', '"'] + name
            + seq!['"', ':'] + value,
{
    let one = seq![(name, value)];
    assert(one.drop_last() =~= Seq::<(Seq<char>, Seq<char>)>::empty());
    assert(members_text(one.drop_last()) =~= Seq::<char>::empty());
    assert(members_text(one) =~= seq!['"'] + name + seq!['"', ':'] + value);
    if m.len() > 0 {
        let all = m.push((name, value));
        assert(all.drop_last() =~= m);
        assert(members_text(all) =~= members_text(m) + seq![',', '"'] + name + seq!['"', ':'] + value);
    }
}

/// A member as it is written.
pub open spec fn written(member: (Seq<char>, Seq<char>)) -> Seq<char> {
    seq!['"'] + member.0 + seq!['"', ':'] + member.1
}

proof fn lemma_member_inside(m: Seq<(Seq<char>, Seq<char>)>, i: int)
    requires
        0 <= i < m.len(),
    ensures
        exists|a: Seq<char>, b: Seq<char>| members_text(m) == #[trigger] (a + written(m[i]) + b),
    decreases m.len(),
{
    let t = m.drop_last();
    let (name, value) = m.last();
    let sep = if m.len() > 1 {
        seq![',']
    } else {
        Seq::empty()
    };
    if i < t.len() {
        lemma_member_inside(t, i);
        let (a, b) = choose|a: Seq<char>, b: Seq<char>|
            members_text(t) == #[trigger] (a + written(t[i]) + b);
        let b2 = b + sep + seq!['"'] + name + seq!['"', ':'] + value;
        assert(members_text(m) =~= a + written(m[i]) + b2);
    } else {
        let a = members_text(t) + sep;
        assert(members_text(m) =~= a + written(m[i]) + Seq::<char>::empty());
    }
}

/// Every member stands in the message of its object, with its name and its value.
pub proof fn law_member_in_message(kind: Seq<char>, m: Seq<(Seq<char>, Seq<char>)>, i: int)
    requires
        0 <= i < m.len(),
    ensures
        contains_text(
            envelope(kind, object_text(m)),
            seq!['"'] + m[i].0 + seq!['"', ':'] + m[i].1,
        ),
        starts_with(envelope(kind, object_text(m)), "{\"t\":\""@ + kind + "\",\"d\":"@),
{
    lemma_member_inside(m, i);
    let (a, b) = choose|a: Seq<char>, b: Seq<char>|
        members_text(m) == #[trigger] (a + written(m[i]) + b);
    let head = "{\"t\":\""@ + kind + "\",\"d\":"@;
    let front = head + seq!['{'] + a;
    let back = b + seq!['}'] + "}"@;
    assert(envelope(kind, object_text(m)) =~= front + written(m[i]) + back);
    law_found(front, written(m[i]), back);
    assert(envelope(kind, object_text(m)) =~= head + (object_text(m) + "}"@));
    law_found(Seq::empty(), head, object_text(m) + "}"@);
}

// ---------------------------------------------------------------------------
// The state of the player
// ---------------------------------------------------------------------------

proof fn lemma_message_begins(m: Seq<(Seq<char>, Seq<char>)>)
    requires
        m.len() > 0,
    ensures
        members_text(m).len() >= written(m[0]).len(),
        members_text(m).take(written(m[0]).len() as int) == written(m[0]),
    decreases m.len(),
{
    let t = m.drop_last();
    if t.len() == 0 {
        law_members(Seq::empty(), m[0].0, m[0].1);
        assert(m =~= seq![(m[0].0, m[0].1)]);
        assert(written(m[0]).take(written(m[0]).len() as int) =~= written(m[0]));
    } else {
        lemma_message_begins(t);
        assert(t[0] == m[0]);
        let n = written(m[0]).len() as int;
        assert(members_text(m).take(n) =~= members_text(t).take(n));
    }
}

/// The message that shows the state of the player begins with it: what stands there is P exactly if
/// the player plays, U exactly if it pauses, and S exactly if it has stopped.
pub proof fn law_state_begins_the_message(status: Status, total: u32, known: Option<SongView>)
    ensures
        ({
            let message = state_message(state_members(status, total, known));
            let head = "{\"t\":\"m\",\"d\":{\"state\":\""@;
            let n = head.len() as int;
            &&& starts_with(message, head)
            &&& message.len() > n + 1
            &&& message[n] == 'P' <==> status.state == State::Play
            &&& message[n] == 'U' <==> status.state == State::Pause
            &&& message[n] == 'S' <==> status.state == State::Stop
            &&& message[n + 1] == '"'
        }),
{
    reveal_strlit("{\"t\":\"m\",\"d\":{\"state\":\"");
    reveal_strlit("{\"t\":\"");
    reveal_strlit("m");
    reveal_strlit("\",\"d\":");
    reveal_strlit("state");
    reveal_strlit("P");
    reveal_strlit("U");
    reveal_strlit("S");
    reveal_strlit("}");
    let head = "{\"t\":\"m\",\"d\":{\"state\":\""@;
    let n = head.len() as int;
    let m = state_members(status, total, known);
    let q = quoted_members(m);
    let letter = m[0].1;
    law_plain_text(letter);
    lemma_message_begins(q);
    let w = written(q[0]);
    assert(q[0] == ("state"@, seq!['"'] + letter + seq!['"']));
    let message = state_message(m);
    let start = "{\"t\":\""@ + "m"@ + "\",\"d\":"@ + seq!['{'];
    let text = members_text(q);
    assert(message =~= start + text + seq!['}'] + "}"@);
    assert(start.len() == 14);
    assert forall|i: int| 0 <= i < w.len() implies message[14 + i] == w[i] by {
        assert(text.take(w.len() as int)[i] == text[i]);
        assert(message[14 + i] == text[i]);
    }
    assert(n == 23);
    assert(w.len() == 11);
    assert(message.subrange(0, n) =~= head) by {
        assert forall|i: int| 0 <= i < n implies message[i] == head[i] by {
            if i < 14 {
                assert(message[i] == start[i]);
                assert(start[i] == head[i]);
            } else {
                assert(message[14 + (i - 14)] == w[i - 14]);
                assert(w[i - 14] == head[i]);
            }
        }
    }
    assert(w[9] == letter[0]);
    assert(w[10] == '"');
    assert(message[14int + 9] == w[9] && message[14int + 10] == w[10]);
}

/// Every member of the state stands in the message, as a text in quotes.
pub proof fn law_state_is_in_the_message(
    status: Status,
    total: u32,
    known: Option<SongView>,
    i: int,
)
    requires
        0 <= i < 19,
    ensures
        ({
            let m = state_members(status, total, known);
            &&& m.len() == 19
            &&& contains_text(
                state_message(m),
                seq!['"'] + m[i].0 + seq!['"', ':'] + quoted(m[i].1),
            )
        }),
{
    let m = state_members(status, total, known);
    law_member_in_message("m"@, quoted_members(m), i);
}

/// What the display holds goes into the message under its own name.
pub proof fn law_display_members(d: StateData)
    ensures
        ({
            let m = d.members();
            &&& m.len() == 19
            &&& m[0] == ("state"@, d.state@) && m[1] == ("volume"@, d.volume@)
            &&& m[2] == ("elapsed"@, d.elapsed@) && m[3] == ("total"@, d.total@)
            &&& m[4] == ("song_id"@, d.song_id@) && m[5] == ("track_number"@, d.track_number@)
            &&& m[6] == ("playlist_position"@, d.playlist_position@)
            &&& m[7] == ("playlist_length"@, d.playlist_length@)
            &&& m[8] == ("playlist_total_time"@, d.playlist_total_time@)
            &&& m[9] == ("title"@, d.title@) && m[10] == ("artist"@, d.artist@)
            &&& m[11] == ("album"@, d.album@) && m[12] == ("genre"@, d.genre@)
            &&& m[13] == ("year"@, d.year@) && m[14] == ("file_type"@, d.file_type@)
            &&& m[15] == ("repeat"@, d.repeat@) && m[16] == ("random"@, d.random@)
            &&& m[17] == ("single"@, d.single@) && m[18] == ("consume"@, d.consume@)
        }),
{
}

// ---------------------------------------------------------------------------
// The machine and the spectrum
// ---------------------------------------------------------------------------

/// Everything that is told of the machine stands in its message, which is of the kind `sys`.
pub proof fn law_machine_is_in_the_message(d: SysinfoView, i: int)
    requires
        0 <= i < d.members().len(),
    ensures
        contains_text(
            d.message(),
            seq!['"'] + d.members()[i].0 + seq!['"', ':'] + d.members()[i].1,
        ),
        starts_with(d.message(), "{\"t\":\""@ + "sys"@ + "\",\"d\":"@),
{
    law_member_in_message("sys"@, d.members(), i);
}

/// The message of a spectrum is of the kind `s`, with its values between square brackets.
pub proof fn law_spectrum_message(v: Seq<i32>)
    ensures
        spectrum_text(v) == "{\"t\":\"s\",\"d\":["@ + numbers_text(v) + "]}"@,
{
    reveal_strlit("{\"t\":\"");
    reveal_strlit("s");
    reveal_strlit("\",\"d\":");
    reveal_strlit("}");
    reveal_strlit("{\"t\":\"s\",\"d\":[");
    reveal_strlit("]}");
    let n = numbers_text(v);
    let s = spectrum_text(v);
    let head = "{\"t\":\""@ + "s"@ + "\",\"d\":"@ + seq!['['];
    assert(head =~= "{\"t\":\"s\",\"d\":["@);
    assert(s =~= head + n + seq![']'] + "}"@);
    assert(seq![']'] + "}"@ =~= "]}"@);
    assert(head + n + seq![']'] + "}"@ =~= head + n + (seq![']'] + "}"@));
}

} // verus!
