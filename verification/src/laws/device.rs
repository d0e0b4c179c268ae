//! What holds of a device that is asked for its name.
use crate::device_identifier::{
    char_width, mode_names, parted, truncated, DeviceFormat, DeviceId, DeviceType, IdEnvelope,
    IdentifyEvent, IdentifyNext, IdentifyStep, Modes,
};
use crate::error::McubError;
use crate::pieces::contains_text;
use crate::serial_comm::ResetStep;
use crate::text::{dec, lower, opt_view, views};
use vstd::prelude::*;
use vstd::string::*;
use vstd::utf8::encode_utf8;

verus! {

/// A reply tells of a mode: its list names it, or, where the list is empty, the name of the device
/// holds it, in whatever case.
pub open spec fn tells_of(list: Seq<Seq<char>>, name: Option<Seq<char>>, mode: Seq<char>) -> bool {
    if list.len() > 0 {
        list.contains(mode)
    } else {
        name is Some && contains_text(lower(name->0), mode)
    }
}

/// The device that a reply leads to wants the spectrum as the reply says, has as many bars as the
/// reply says, and tells of the machine exactly if that is among its modes. Its kind is that of its
/// only mode, and hybrid exactly if it has more than one.
pub proof fn law_device_of_reply(
    path: Seq<char>,
    env: IdEnvelope,
    step: IdentifyStep,
    id: DeviceId,
)
    requires
        step.follows(path, IdentifyEvent::Parsed(Some(env))),
        step.next == IdentifyNext::Done(Ok(id)),
    ensures
        env.t@ == "id"@,
        id.format == DeviceFormat::Binary <==> env.d.binary,
        id.format == DeviceFormat::Json <==> !env.d.binary,
        id.spectrum_bars == env.d.bars,
        ({
            let list = views(env.d.modes@);
            let name = opt_view(env.d.name);
            let mpd = tells_of(list, name, "mpd"@);
            let cava = tells_of(list, name, "cava"@);
            let sysinfo = tells_of(list, name, "sysinfo"@);
            &&& id.has_sysinfo <==> sysinfo
            &&& id.device_type == DeviceType::Mpd <==> mpd && !cava && !sysinfo
            &&& id.device_type == DeviceType::Cava <==> cava && !mpd && !sysinfo
            &&& id.device_type == DeviceType::Sysinfo <==> sysinfo && !mpd && !cava
            &&& id.device_type == DeviceType::Hybrid <==> (mpd && cava) || (mpd && sysinfo) || (cava
                && sysinfo)
        }),
{
}

/// A reply leads to a device exactly if it is one of kind `id` and tells of a mode; every other reply
/// leads to an error, and none to another question.
pub proof fn law_replies_that_lead_to_a_device(
    path: Seq<char>,
    reply: Option<IdEnvelope>,
    step: IdentifyStep,
)
    requires
        step.follows(path, IdentifyEvent::Parsed(reply)),
    ensures
        step.next is Done,
        step.next matches IdentifyNext::Done(r) ==> (r is Ok <==> {
            &&& reply matches Some(env)
            &&& env.t@ == "id"@
            &&& {
                let list = views(env.d.modes@);
                let name = opt_view(env.d.name);
                tells_of(list, name, "mpd"@) || tells_of(list, name, "cava"@) || tells_of(
                    list,
                    name,
                    "sysinfo"@,
                )
            }
        }),
        step.next == IdentifyNext::Done(Err(McubError::DeviceNotFound)) ==> reply is Some
            && reply->0.t@ == "id"@,
        reply is Some && reply->0.t@ == "id"@ ==> (step.next matches IdentifyNext::Done(Err(e)) ==> e
            == McubError::DeviceNotFound),
{
}

/// A line that is no reply, and a reply of another kind, are errors that say so.
pub proof fn law_bad_replies(path: Seq<char>, reply: Option<IdEnvelope>, step: IdentifyStep)
    requires
        step.follows(path, IdentifyEvent::Parsed(reply)),
    ensures
        reply is None ==> (step.next matches IdentifyNext::Done(Err(McubError::Config(m))) && m@
            == "invalid id JSON"@),
        reply is Some && reply->0.t@ != "id"@ ==> (step.next matches IdentifyNext::Done(
            Err(McubError::Config(m)),
        ) && m@ == "invalid id envelope"@),
{
}

/// Two replies that differ in nothing but their spectrum lead to devices that differ in nothing else.
pub proof fn law_spectrum_does_not_change_the_kind(
    path: Seq<char>,
    a: IdEnvelope,
    b: IdEnvelope,
    first: IdentifyStep,
    second: IdentifyStep,
    id: DeviceId,
)
    requires
        first.follows(path, IdentifyEvent::Parsed(Some(a))),
        second.follows(path, IdentifyEvent::Parsed(Some(b))),
        a.t@ == b.t@,
        views(a.d.modes@) == views(b.d.modes@),
        opt_view(a.d.name) == opt_view(b.d.name),
        first.next == IdentifyNext::Done(Ok(id)),
    ensures
        second.next matches IdentifyNext::Done(Ok(other)) && other.device_type == id.device_type
            && other.has_sysinfo == id.has_sysinfo && (other.format == id.format <==> a.d.binary
            == b.d.binary),
{
}

/// A device is asked in this order: the line is opened, the device is reset, the request is written,
/// a line is read, and this very line is parsed. A fault on the way is handed back as it is, and
/// silence is a timeout.
pub proof fn law_asking_goes_on(path: Seq<char>, event: IdentifyEvent, step: IdentifyStep)
    requires
        step.follows(path, event),
    ensures
        step.next is Reset ==> event is Opened || event is Reset,
        step.next is Write ==> event is Reset,
        step.next is Read <==> (event matches IdentifyEvent::Written(r) && r is Ok),
        step.next is Parse <==> (event matches IdentifyEvent::Read(Some(s)) && s@.len() > 0),
        step.next matches IdentifyNext::Parse(t) ==> (event matches IdentifyEvent::Read(Some(s))
            && s == t),
        step.next matches IdentifyNext::Reset(s) ==> !(s is Ready),
        event matches IdentifyEvent::Opened(Ok(_)) ==> step.next is Reset,
        event is Reset ==> step.next is Reset || step.next is Write,
        event matches IdentifyEvent::Opened(Err(e)) ==> step.next == IdentifyNext::Done(Err(e)),
        event matches IdentifyEvent::Written(Err(e)) ==> step.next == IdentifyNext::Done(Err(e)),
        event is Read && !(step.next is Parse) ==> step.next == IdentifyNext::Done(
            Err(McubError::Timeout),
        ),
        step.next matches IdentifyNext::Done(r) ==> (r is Ok ==> event is Parsed),
{
}

/// What is told while a device is asked begins with its path. Nothing is told of a step that went
/// well before the reply came.
pub proof fn law_what_is_told_names_the_device(
    path: Seq<char>,
    event: IdentifyEvent,
    step: IdentifyStep,
)
    requires
        step.follows(path, event),
    ensures
        step.debug matches Some(s) ==> s@.len() > path.len() && s@.take(path.len() as int) == path,
        step.debug is Some ==> step.next is Parse || step.next is Done,
        step.next is Parse ==> step.debug is Some,
        step.next matches IdentifyNext::Done(r) ==> (step.debug is None <==> r == Err::<
            DeviceId,
            McubError,
        >(McubError::DeviceNotFound) && event is Parsed) || event is Opened || event is Written,
{
    reveal_strlit(": serial error: ");
    reveal_strlit(": write error: ");
    reveal_strlit(": response=");
    reveal_strlit(": no response (timeout)");
    reveal_strlit(": JSON decode error");
    reveal_strlit(": invalid response format");
    reveal_strlit(": modes=[");
    if let Some(s) = step.debug {
        assert(s@.take(path.len() as int) =~= path);
    }
}

/// What is told of a device that gave its name: its modes, the format of its spectrum, and the number
/// of its bars, or 0.
pub proof fn law_what_is_told_of_a_device(
    path: Seq<char>,
    env: IdEnvelope,
    step: IdentifyStep,
    id: DeviceId,
)
    requires
        step.follows(path, IdentifyEvent::Parsed(Some(env))),
        step.next == IdentifyNext::Done(Ok(id)),
    ensures
        ({
            let list = views(env.d.modes@);
            let name = opt_view(env.d.name);
            let m = Modes {
                mpd: tells_of(list, name, "mpd"@),
                cava: tells_of(list, name, "cava"@),
                sysinfo: tells_of(list, name, "sysinfo"@),
            };
            let bars = match id.spectrum_bars {
                Some(n) => n as nat,
                None => 0,
            };
            &&& step.debug matches Some(s)
            &&& s@ == path + ": modes=["@ + parted(mode_names(m), ","@) + "], format="@
                + id.format.text() + ", bars="@ + dec(bars)
        }),
{
}

proof fn lemma_mode_words()
    ensures
        "mpd"@.len() == 3,
        "cava"@.len() == 4,
        "sysinfo"@.len() == 7,
        "hybrid"@.len() == 6,
        "json"@.len() == 4 && "json"@[0] == 'j',
        "binary"@.len() == 6,
{
    reveal_strlit("mpd");
    reveal_strlit("cava");
    reveal_strlit("sysinfo");
    reveal_strlit("hybrid");
    reveal_strlit("json");
    reveal_strlit("binary");
}

/// The names of the modes hold each mode exactly if it is one, each once.
pub proof fn law_mode_names(m: Modes)
    ensures
        mode_names(m).contains("mpd"@) <==> m.mpd,
        mode_names(m).contains("cava"@) <==> m.cava,
        mode_names(m).contains("sysinfo"@) <==> m.sysinfo,
        mode_names(m).no_duplicates(),
        forall|s: Seq<char>|
            mode_names(m).contains(s) ==> s == "mpd"@ || s == "cava"@ || s == "sysinfo"@,
{
    lemma_mode_words();
    let l = mode_names(m);
    if m.mpd {
        assert(l[0] == "mpd"@);
    }
    if m.cava {
        assert(l[if m.mpd {
            1int
        } else {
            0
        }] == "cava"@);
    }
    if m.sysinfo {
        assert(l[l.len() - 1] == "sysinfo"@);
    }
}

/// A list is its parts with the separator between any two of them: it is as long as they are, and
/// begins with the first and ends with the last.
pub proof fn law_list_of_parts(parts: Seq<Seq<char>>, part: Seq<char>, sep: Seq<char>)
    ensures
        parted(Seq::empty(), sep) == Seq::<char>::empty(),
        parted(seq![part], sep) == part,
        parts.len() > 0 ==> parted(parts.push(part), sep) == parted(parts, sep) + sep + part,
{
    assert(parts.push(part).drop_last() =~= parts);
}

/// The names of kinds and formats are the words that the settings use for them.
pub proof fn law_words(t: DeviceType, f: DeviceFormat)
    ensures
        t.text() == "mpd"@ <==> t == DeviceType::Mpd,
        t.text() == "cava"@ <==> t == DeviceType::Cava,
        t.text() == "hybrid"@ <==> t == DeviceType::Hybrid,
        t.text() == "sysinfo"@ <==> t == DeviceType::Sysinfo,
        f.text() == "json"@ <==> f == DeviceFormat::Json,
        f.text() == "binary"@ <==> f == DeviceFormat::Binary,
{
    lemma_mode_words();
}

/// What is shown of a text is its beginning. It is cut where so many bytes are full, and not before:
/// without its last character it is shorter than the bytes that may be shown.
pub proof fn law_shown_beginning(s: Seq<char>, max: nat)
    ensures
        ({
            let t = truncated(s, max);
            &&& t.len() <= s.len() && t == s.take(t.len() as int)
            &&& t.len() > 0 ==> encode_utf8(t.drop_last()).len() < max
            &&& t.len() < s.len() ==> encode_utf8(t).len() >= max
        }),
    decreases s.len(),
{
    let t = truncated(s, max);
    reveal_with_fuel(encode_utf8, 2);
    if s.len() == 0 || max == 0 {
        assert(t =~= Seq::<char>::empty());
    } else {
        let rest = s.drop_first();
        let c = s[0];
        let w = char_width(c) as int;
        lemma_width_of_one(c);
        if max <= w {
            assert(crate::device_identifier::kept_chars(rest, max - w) == 0);
            assert(t =~= seq![c]);
            assert(t.drop_last() =~= Seq::<char>::empty());
            assert(t.drop_first() =~= Seq::<char>::empty());
        } else {
            let left = (max - w) as nat;
            let u = truncated(rest, left);
            law_shown_beginning(rest, left);
            assert(u.len() == crate::device_identifier::kept_chars(rest, left as int)) by {
                crate::device_identifier::lemma_kept_within(rest, left as int);
            }
            assert(t =~= seq![c] + u);
            assert(t.drop_first() =~= u);
            assert(encode_utf8(t).len() == w + encode_utf8(u).len()) by {
                assert(t[0] == c);
            }
            if u.len() > 0 {
                assert(t.drop_last() =~= seq![c] + u.drop_last());
                assert(t.drop_last().drop_first() =~= u.drop_last());
                assert(t.drop_last()[0] == c);
            } else {
                assert(t.drop_last() =~= Seq::<char>::empty());
            }
        }
    }
}

proof fn lemma_width_of_one(c: char)
    ensures
        forall|s: Seq<char>|
            s.len() > 0 && s[0] == c ==> #[trigger] encode_utf8(s).len() == char_width(c)
                + encode_utf8(s.drop_first()).len(),
{
    reveal_with_fuel(encode_utf8, 2);
}

} // verus!
