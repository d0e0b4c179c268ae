//! What a device says of itself.
use crate::devices::holds;
use crate::error::{McubError, McubResult};
use crate::pieces::{contains_text, has_text};
use crate::serial_comm::{identify_request, reset, reset_step, ResetEvent, ResetStep};
use crate::text::{
    dec, dec_text, joined, lower, opt_view, same_text, text_of, to_chars, to_lower, views,
};
use vstd::prelude::*;
use vstd::string::*;
use vstd::utf8::encode_utf8;

verus! {

/// How much of a reply is shown, in bytes.
pub const SHOWN_BYTES: usize = 200;

/// The kind of a device, by the messages that it wants.
#[derive(Debug, Clone, Copy, PartialEq, Eq, Structural)]
pub enum DeviceType {
    Mpd,
    Cava,
    Hybrid,
    Sysinfo,
}

impl DeviceType {
    /// The name of the kind.
    pub open spec fn text(self) -> Seq<char> {
        match self {
            DeviceType::Mpd => "mpd"@,
            DeviceType::Cava => "cava"@,
            DeviceType::Hybrid => "hybrid"@,
            DeviceType::Sysinfo => "sysinfo"@,
        }
    }

    pub fn as_str(self) -> (r: &'static str)
        ensures
            r@ == self.text(),
    {
        match self {
            DeviceType::Mpd => "mpd",
            DeviceType::Cava => "cava",
            DeviceType::Hybrid => "hybrid",
            DeviceType::Sysinfo => "sysinfo",
        }
    }
}

/// How a device wants the spectrum.
#[derive(Debug, Clone, Copy, PartialEq, Eq, Structural)]
pub enum DeviceFormat {
    Json,
    Binary,
}

impl DeviceFormat {
    /// The name of the format.
    pub open spec fn text(self) -> Seq<char> {
        match self {
            DeviceFormat::Json => "json"@,
            DeviceFormat::Binary => "binary"@,
        }
    }

    pub fn as_str(self) -> (r: &'static str)
        ensures
            r@ == self.text(),
    {
        match self {
            DeviceFormat::Json => "json",
            DeviceFormat::Binary => "binary",
        }
    }
}

/// A device that gave its name.
#[derive(Debug, Clone, Copy, PartialEq, Eq, Structural)]
pub struct DeviceId {
    pub device_type: DeviceType,
    pub format: DeviceFormat,
    pub spectrum_bars: Option<u32>,
    pub has_sysinfo: bool,
}

/// What a reply holds: its kind and what the device says of itself.
#[derive(Debug)]
pub struct IdEnvelope {
    pub t: String,
    pub d: IdData,
}

/// What a device says of itself. What it leaves out is empty, false or nothing.
#[derive(Debug)]
pub struct IdData {
    pub modes: Vec<String>,
    pub binary: bool,
    pub bars: Option<u32>,
    pub name: Option<String>,
}

// ---------------------------------------------------------------------------
// Modes
// ---------------------------------------------------------------------------

/// The messages that a device wants.
#[derive(Debug, Clone, Copy, PartialEq, Eq, Structural)]
pub struct Modes {
    pub mpd: bool,
    pub cava: bool,
    pub sysinfo: bool,
}

/// The modes that a list names.
pub open spec fn listed_modes(list: Seq<Seq<char>>) -> Modes {
    Modes {
        mpd: list.contains("mpd"@),
        cava: list.contains("cava"@),
        sysinfo: list.contains("sysinfo"@),
    }
}

/// The modes that the name of a device tells, in whatever case.
pub open spec fn named_modes(name: Seq<char>) -> Modes {
    Modes {
        mpd: contains_text(lower(name), "mpd"@),
        cava: contains_text(lower(name), "cava"@),
        sysinfo: contains_text(lower(name), "sysinfo"@),
    }
}

/// No mode.
pub open spec fn no_modes() -> Modes {
    Modes { mpd: false, cava: false, sysinfo: false }
}

/// The modes of a device: those of its list, or those that its name tells, if the list is empty.
pub open spec fn modes_of(list: Seq<Seq<char>>, name: Option<Seq<char>>) -> Modes {
    if list.len() > 0 {
        listed_modes(list)
    } else {
        match name {
            Some(n) => named_modes(n),
            None => no_modes(),
        }
    }
}

/// The modes of a device.
pub fn detect_modes(list: &Vec<String>, name: &Option<String>) -> (r: Modes)
    ensures
        r == modes_of(views(list@), opt_view(*name)),
{
    if list.len() > 0 {
        Modes { mpd: holds(list, "mpd"), cava: holds(list, "cava"), sysinfo: holds(list, "sysinfo") }
    } else {
        match name {
            Some(n) => {
                let low = to_lower(n.as_str());
                Modes {
                    mpd: has_text(low.as_str(), "mpd"),
                    cava: has_text(low.as_str(), "cava"),
                    sysinfo: has_text(low.as_str(), "sysinfo"),
                }
            },
            None => Modes { mpd: false, cava: false, sysinfo: false },
        }
    }
}

/// The kind of a device with the given modes: a hybrid wants more than one of them.
pub open spec fn type_of(m: Modes) -> Option<DeviceType> {
    let count = (if m.mpd {
        1int
    } else {
        0
    }) + (if m.cava {
        1int
    } else {
        0
    }) + (if m.sysinfo {
        1int
    } else {
        0
    });
    if count == 0 {
        None
    } else if count > 1 {
        Some(DeviceType::Hybrid)
    } else if m.mpd {
        Some(DeviceType::Mpd)
    } else if m.cava {
        Some(DeviceType::Cava)
    } else {
        Some(DeviceType::Sysinfo)
    }
}

/// The kind of a device with the given modes.
pub fn device_type(m: Modes) -> (r: Option<DeviceType>)
    ensures
        r == type_of(m),
{
    if m.mpd {
        if m.cava || m.sysinfo {
            Some(DeviceType::Hybrid)
        } else {
            Some(DeviceType::Mpd)
        }
    } else if m.cava {
        if m.sysinfo {
            Some(DeviceType::Hybrid)
        } else {
            Some(DeviceType::Cava)
        }
    } else if m.sysinfo {
        Some(DeviceType::Sysinfo)
    } else {
        None
    }
}

/// The parts one after the other, with `sep` between them.
pub open spec fn parted(parts: Seq<Seq<char>>, sep: Seq<char>) -> Seq<char>
    decreases parts.len(),
{
    if parts.len() == 0 {
        Seq::empty()
    } else if parts.len() == 1 {
        parts[0]
    } else {
        parted(parts.drop_last(), sep) + sep + parts.last()
    }
}

/// The names of the modes.
pub open spec fn mode_names(m: Modes) -> Seq<Seq<char>> {
    let a = if m.mpd {
        seq!["mpd"@]
    } else {
        Seq::empty()
    };
    let b = if m.cava {
        a.push("cava"@)
    } else {
        a
    };
    if m.sysinfo {
        b.push("sysinfo"@)
    } else {
        b
    }
}

fn add_part(text: String, first: bool, sep: &str, part: &str, Ghost(parts): Ghost<Seq<Seq<char>>>) -> (r:
    String)
    requires
        text@ == parted(parts, sep@),
        first == (parts.len() == 0),
    ensures
        r@ == parted(parts.push(part@), sep@),
{
    let ghost all = parts.push(part@);
    assert(all.drop_last() =~= parts);
    if first {
        part.to_owned()
    } else {
        let mut r = text;
        r.append(sep);
        r.append(part);
        r
    }
}

/// The names of the modes, with `sep` between them.
pub fn modes_text(m: Modes, sep: &str) -> (r: String)
    ensures
        r@ == parted(mode_names(m), sep@),
{
    let mut text = String::new();
    let mut first = true;
    let ghost mut parts = Seq::<Seq<char>>::empty();
    if m.mpd {
        text = add_part(text, first, sep, "mpd", Ghost(parts));
        proof {
            parts = parts.push("mpd"@);
        }
        first = false;
    }
    if m.cava {
        text = add_part(text, first, sep, "cava", Ghost(parts));
        proof {
            parts = parts.push("cava"@);
        }
        first = false;
    }
    if m.sysinfo {
        text = add_part(text, first, sep, "sysinfo", Ghost(parts));
        proof {
            parts = parts.push("sysinfo"@);
        }
    }
    assert(parts =~= mode_names(m));
    text
}

// ---------------------------------------------------------------------------
// The beginning of a text
// ---------------------------------------------------------------------------

/// The number of bytes of a character in UTF-8.
pub open spec fn char_width(c: char) -> nat {
    let n = c as int;
    if n < 0x80 {
        1
    } else if n < 0x800 {
        2
    } else if n < 0x10000 {
        3
    } else {
        4
    }
}

/// The number of characters that begin within the first `max` bytes.
pub open spec fn kept_chars(s: Seq<char>, max: int) -> nat
    decreases s.len(),
{
    if s.len() == 0 || max <= 0 {
        0
    } else {
        1 + kept_chars(s.drop_first(), max - char_width(s[0]))
    }
}

/// The characters that begin within the first `max` bytes.
pub open spec fn truncated(s: Seq<char>, max: nat) -> Seq<char> {
    s.take(kept_chars(s, max as int) as int)
}

fn width_of(c: char) -> (r: usize)
    ensures
        r == char_width(c),
{
    let n: u32 = c as u32;
    if n < 0x80 {
        1
    } else if n < 0x800 {
        2
    } else if n < 0x10000 {
        3
    } else {
        4
    }
}

pub proof fn lemma_kept_within(s: Seq<char>, max: int)
    ensures
        kept_chars(s, max) <= s.len(),
    decreases s.len(),
{
    if s.len() > 0 && max > 0 {
        lemma_kept_within(s.drop_first(), max - char_width(s[0]));
    }
}

/// The beginning of `s`: the characters that begin within its first `max` bytes.
pub fn truncate(s: &str, max: usize) -> (r: String)
    ensures
        r@ == truncated(s@, max as nat),
{
    let v = to_chars(s);
    let mut i: usize = 0;
    let mut left: usize = max;
    proof {
        lemma_kept_within(s@, max as int);
        assert(s@.skip(0) =~= s@);
    }
    while i < v.len() && left > 0
        invariant
            v@ == s@,
            i <= v@.len(),
            kept_chars(s@, max as int) == i + kept_chars(s@.skip(i as int), left as int),
        decreases v.len() - i,
    {
        let w: usize = width_of(v[i]);
        proof {
            let t = s@.skip(i as int);
            assert(t[0] == s@[i as int]);
            assert(t.drop_first() =~= s@.skip(i + 1));
            if left <= w {
                assert(kept_chars(s@.skip(i + 1), left - w) == 0);
            }
        }
        left = if left > w {
            left - w
        } else {
            0
        };
        i = i + 1;
    }
    assert(kept_chars(s@, max as int) == i);
    text_of(&v, 0, i)
}

proof fn lemma_width(c: char)
    ensures
        encode_utf8(seq![c]).len() == char_width(c),
{
    assert(seq![c].drop_first() =~= Seq::<char>::empty());
    reveal_with_fuel(encode_utf8, 2);
}

/// A text of at most `max` bytes is shown whole.
pub proof fn law_short_text_is_whole(s: Seq<char>, max: nat)
    requires
        encode_utf8(s).len() <= max,
    ensures
        truncated(s, max) == s,
    decreases s.len(),
{
    lemma_kept_within(s, max as int);
    if s.len() > 0 {
        lemma_width(s[0]);
        assert(seq![s[0]].drop_first() =~= Seq::<char>::empty());
        reveal_with_fuel(encode_utf8, 2);
        let rest = s.drop_first();
        assert(encode_utf8(s).len() == char_width(s[0]) + encode_utf8(rest).len());
        law_short_text_is_whole(rest, (max - char_width(s[0])) as nat);
        assert(truncated(rest, (max - char_width(s[0])) as nat).len() == rest.len());
        lemma_kept_within(rest, max - char_width(s[0]));
    }
    assert(s.take(s.len() as int) =~= s);
}

// ---------------------------------------------------------------------------
// Asking a device
// ---------------------------------------------------------------------------

/// The time that a read on the line may take, in tenths of a second: from 1 to 255.
pub fn line_timeout(timeout_ns: u64) -> (r: u8)
    ensures
        r as int == if timeout_ns < 100_000_000 {
            1
        } else if timeout_ns >= 25_500_000_000 {
            255
        } else {
            timeout_ns as int / 100_000_000
        },
{
    let tenths: u64 = timeout_ns / 100_000_000;
    if tenths < 1 {
        1
    } else if tenths > 255 {
        255
    } else {
        tenths as u8
    }
}

/// The speed at which a device is asked for its name: 9600 if that is the speed of the settings,
/// and 115200 otherwise.
pub fn identify_speed(baudrate: u32) -> (r: u32)
    ensures
        r as int == if baudrate == 9600 {
            9600int
        } else {
            115_200
        },
{
    if baudrate == 9600 {
        9600
    } else {
        115_200
    }
}

/// What happened while a device is asked for its name.
#[derive(Debug)]
pub enum IdentifyEvent {
    /// The line was opened, or could not be.
    Opened(McubResult<()>),
    /// The device is being reset.
    Reset(ResetEvent),
    /// The request was written, or could not be.
    Written(McubResult<()>),
    /// A line came, or did not.
    Read(Option<String>),
    /// What the line holds, if it is a reply.
    Parsed(Option<IdEnvelope>),
}

/// What to do next.
#[derive(Debug)]
pub enum IdentifyNext {
    /// Reset the device.
    Reset(ResetStep),
    /// Write this request.
    Write(&'static str),
    /// Read a line.
    Read,
    /// Parse the line.
    Parse(String),
    /// The device is known, or it is not.
    Done(McubResult<DeviceId>),
}

/// What to do next, and what to tell of it.
#[derive(Debug)]
pub struct IdentifyStep {
    pub debug: Option<String>,
    pub next: IdentifyNext,
}

/// What is told of a device that gave its name.
pub open spec fn found_text(path: Seq<char>, d: IdData) -> Seq<char> {
    path + ": modes=["@ + parted(mode_names(modes_of(views(d.modes@), opt_view(d.name))), ","@)
        + "], format="@ + (if d.binary {
        "binary"@
    } else {
        "json"@
    }) + ", bars="@ + dec(
        match d.bars {
            Some(n) => n as nat,
            None => 0,
        },
    )
}

/// The device that a reply describes: nothing, if it names no mode.
pub open spec fn id_of(d: IdData) -> Option<DeviceId> {
    let modes = modes_of(views(d.modes@), opt_view(d.name));
    match type_of(modes) {
        Some(device_type) => Some(
            DeviceId {
                device_type,
                format: if d.binary {
                    DeviceFormat::Binary
                } else {
                    DeviceFormat::Json
                },
                spectrum_bars: d.bars,
                has_sysinfo: modes.sysinfo,
            },
        ),
        None => None,
    }
}

impl IdentifyStep {
    /// What the step tells.
    pub open spec fn tells(self, text: Seq<char>) -> bool {
        self.debug is Some && self.debug->0@ == text
    }

    /// The device could not be identified, for a fault of the given text.
    pub open spec fn fails_with(self, text: Seq<char>) -> bool {
        self.next matches IdentifyNext::Done(Err(McubError::Config(m))) && m@ == text
    }

    /// The step follows the event for the device at `path`.
    pub open spec fn follows(self, path: Seq<char>, event: IdentifyEvent) -> bool {
        match event {
            IdentifyEvent::Opened(Ok(_)) => self.debug is None && self.next
                == IdentifyNext::Reset(reset_step(ResetEvent::Begin)),
            IdentifyEvent::Reset(e) => self.debug is None && self.next == match reset_step(e) {
                ResetStep::Ready => IdentifyNext::Write(
                    "{\"t\":\"id\",\"c\":\"identify\"}\n",
                ),
                s => IdentifyNext::Reset(s),
            },
            IdentifyEvent::Opened(Err(e)) => self.tells(path + ": serial error: "@ + e.text())
                && self.next == IdentifyNext::Done(Err(e)),
            IdentifyEvent::Written(Ok(_)) => self.debug is None && self.next is Read,
            IdentifyEvent::Written(Err(e)) => self.tells(path + ": write error: "@ + e.text())
                && self.next == IdentifyNext::Done(Err(e)),
            IdentifyEvent::Read(Some(s)) if s@.len() > 0 => self.tells(
                path + ": response="@ + truncated(s@, SHOWN_BYTES as nat),
            ) && self.next == IdentifyNext::Parse(s),
            IdentifyEvent::Read(_) => self.tells(path + ": no response (timeout)"@) && self.next
                == IdentifyNext::Done(Err(McubError::Timeout)),
            IdentifyEvent::Parsed(None) => self.tells(path + ": JSON decode error"@)
                && self.fails_with("invalid id JSON"@),
            IdentifyEvent::Parsed(Some(env)) => if env.t@ != "id"@ {
                self.tells(path + ": invalid response format"@) && self.fails_with(
                    "invalid id envelope"@,
                )
            } else {
                match id_of(env.d) {
                    Some(id) => self.tells(found_text(path, env.d)) && self.next
                        == IdentifyNext::Done(Ok(id)),
                    None => self.debug is None && self.next == IdentifyNext::Done(
                        Err(McubError::DeviceNotFound),
                    ),
                }
            },
        }
    }
}

fn told(path: &str, text: &str) -> (r: Option<String>)
    ensures
        r is Some,
        r->0@ == path@ + text@,
{
    Some(joined(path, text))
}

fn told_more(path: &str, text: &str, more: &str) -> (r: Option<String>)
    ensures
        r is Some,
        r->0@ == path@ + text@ + more@,
{
    let s = joined(path, text);
    Some(joined(s.as_str(), more))
}

fn found_message(path: &str, d: &IdData, modes: Modes, format: DeviceFormat) -> (r: String)
    requires
        modes == modes_of(views(d.modes@), opt_view(d.name)),
        format == if d.binary {
            DeviceFormat::Binary
        } else {
            DeviceFormat::Json
        },
    ensures
        r@ == found_text(path@, *d),
{
    let names = modes_text(modes, ",");
    let bars: u64 = match d.bars {
        Some(n) => n as u64,
        None => 0,
    };
    let number = dec_text(bars);
    let mut s = path.to_owned();
    s.append(": modes=[");
    s.append(names.as_str());
    s.append("], format=");
    s.append(format.as_str());
    s.append(", bars=");
    s.append(number.as_str());
    s
}

/// The device that a reply describes, and what is told of it.
fn classify(path: &str, d: &IdData) -> (r: IdentifyStep)
    ensures
        match id_of(*d) {
            Some(id) => r.tells(found_text(path@, *d)) && r.next == IdentifyNext::Done(Ok(id)),
            None => r.debug is None && r.next == IdentifyNext::Done(Err(McubError::DeviceNotFound)),
        },
{
    let format = if d.binary {
        DeviceFormat::Binary
    } else {
        DeviceFormat::Json
    };
    let modes = detect_modes(&d.modes, &d.name);
    match device_type(modes) {
        Some(device_type) => {
            let id = DeviceId {
                device_type,
                format,
                spectrum_bars: d.bars,
                has_sysinfo: modes.sysinfo,
            };
            IdentifyStep {
                debug: Some(found_message(path, d, modes, format)),
                next: IdentifyNext::Done(Ok(id)),
            }
        },
        None => IdentifyStep {
            debug: None,
            next: IdentifyNext::Done(Err(McubError::DeviceNotFound)),
        },
    }
}

/// Goes on after an event while the device at `device_path` is asked for its name.
pub fn identify(device_path: &str, event: IdentifyEvent) -> (r: IdentifyStep)
    ensures
        r.follows(device_path@, event),
{
    match event {
        IdentifyEvent::Opened(Ok(_)) => IdentifyStep {
            debug: None,
            next: IdentifyNext::Reset(reset(ResetEvent::Begin)),
        },
        IdentifyEvent::Reset(e) => IdentifyStep {
            debug: None,
            next: match reset(e) {
                ResetStep::Ready => IdentifyNext::Write(identify_request()),
                s => IdentifyNext::Reset(s),
            },
        },
        IdentifyEvent::Opened(Err(e)) => {
            let text = e.message();
            IdentifyStep {
                debug: told_more(device_path, ": serial error: ", text.as_str()),
                next: IdentifyNext::Done(Err(e)),
            }
        },
        IdentifyEvent::Written(Ok(_)) => IdentifyStep { debug: None, next: IdentifyNext::Read },
        IdentifyEvent::Written(Err(e)) => {
            let text = e.message();
            IdentifyStep {
                debug: told_more(device_path, ": write error: ", text.as_str()),
                next: IdentifyNext::Done(Err(e)),
            }
        },
        IdentifyEvent::Read(None) => IdentifyStep {
            debug: told(device_path, ": no response (timeout)"),
            next: IdentifyNext::Done(Err(McubError::Timeout)),
        },
        IdentifyEvent::Read(Some(s)) => {
            proof {
                reveal_strlit("");
                assert(s@.len() == 0 ==> s@ =~= ""@);
            }
            if same_text(s.as_str(), "") {
                IdentifyStep {
                    debug: told(device_path, ": no response (timeout)"),
                    next: IdentifyNext::Done(Err(McubError::Timeout)),
                }
            } else {
                let shown = truncate(s.as_str(), SHOWN_BYTES);
                IdentifyStep {
                    debug: told_more(device_path, ": response=", shown.as_str()),
                    next: IdentifyNext::Parse(s),
                }
            }
        },
        IdentifyEvent::Parsed(None) => IdentifyStep {
            debug: told(device_path, ": JSON decode error"),
            next: IdentifyNext::Done(Err(McubError::Config("invalid id JSON".to_owned()))),
        },
        IdentifyEvent::Parsed(Some(env)) => {
            if !same_text(env.t.as_str(), "id") {
                IdentifyStep {
                    debug: told(device_path, ": invalid response format"),
                    next: IdentifyNext::Done(
                        Err(McubError::Config("invalid id envelope".to_owned())),
                    ),
                }
            } else {
                classify(device_path, &env.d)
            }
        },
    }
}

/// A device whose modes are listed is known by them alone, whatever its name.
pub proof fn law_list_goes_before_name(list: Seq<Seq<char>>, a: Option<Seq<char>>, b: Option<
    Seq<char>,
>)
    requires
        list.len() > 0,
    ensures
        modes_of(list, a) == modes_of(list, b),
{
}

/// A device is found exactly if it names a mode, and one with a single mode is no hybrid.
pub proof fn law_every_mode_has_a_type(m: Modes)
    ensures
        type_of(m) is Some <==> m.mpd || m.cava || m.sysinfo,
        type_of(m) == Some(DeviceType::Mpd) <==> m.mpd && !m.cava && !m.sysinfo,
        type_of(m) == Some(DeviceType::Cava) <==> !m.mpd && m.cava && !m.sysinfo,
        type_of(m) == Some(DeviceType::Sysinfo) <==> !m.mpd && !m.cava && m.sysinfo,
{
}

} // verus!
