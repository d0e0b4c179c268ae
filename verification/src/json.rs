//! The messages of the wire, in JSON.
use crate::text::{dec_int, dec_int_text};
use vstd::prelude::*;
use vstd::string::*;

verus! {

/// A hexadecimal digit, in lower case.
pub open spec fn hex_char(d: int) -> char {
    if d < 10 {
        (48 + d) as char
    } else {
        (87 + d) as char
    }
}

/// How a character is written inside the quotes of a JSON string.
pub open spec fn escaped(c: char) -> Seq<char> {
    let n = c as int;
    if c == '"' || c == '\\' {
        seq!['\\', c]
    } else if n == 0x08 {
        seq!['\\', 'b']
    } else if n == 0x09 {
        seq!['\\', 't']
    } else if n == 0x0A {
        seq!['\\', 'n']
    } else if n == 0x0C {
        seq!['\\', 'f']
    } else if n == 0x0D {
        seq!['\\', 'r']
    } else if n < 0x20 {
        seq!['\\', 'u', '0', '0', hex_char(n / 16), hex_char(n % 16)]
    } else {
        seq![c]
    }
}

/// How a text is written inside the quotes of a JSON string.
pub open spec fn escaped_text(s: Seq<char>) -> Seq<char>
    decreases s.len(),
{
    if s.len() == 0 {
        Seq::empty()
    } else {
        escaped_text(s.drop_last()) + escaped(s.last())
    }
}

/// A text as a JSON string.
pub open spec fn quoted(s: Seq<char>) -> Seq<char> {
    seq!['"'] + escaped_text(s) + seq!['"']
}

/// Calls `serde_json::to_string` on a text. It gives the JSON string of the text: double quotes
/// round it, a backslash before a double quote or backslash, short forms for backspace, tab, line
/// feed, form feed and carriage return, `\u00` and two hexadecimal digits for the other control
/// characters below the blank, and every other character as it is. Writing a text to memory does
/// not fail.
#[verifier::external_body]
fn json_string(s: &str) -> (r: Option<String>)
    ensures
        r is Some,
        r->0@ == quoted(s@),
{
    serde_json::to_string(s).ok()
}

/// A text as a JSON string.
pub fn quote(s: &str) -> (r: String)
    ensures
        r@ == quoted(s@),
{
    match json_string(s) {
        Some(t) => t,
        None => String::new(),
    }
}

/// The members of a JSON object, each by its name and by its value in JSON, with a comma between
/// any two.
pub open spec fn members_text(members: Seq<(Seq<char>, Seq<char>)>) -> Seq<char>
    decreases members.len(),
{
    if members.len() == 0 {
        Seq::empty()
    } else {
        let before = members_text(members.drop_last());
        let (name, value) = members.last();
        let sep = if members.len() > 1 {
            seq![',']
        } else {
            Seq::empty()
        };
        before + sep + seq!['"'] + name + seq!['"', ':'] + value
    }
}

/// An object of the wire: its kind under `t`, and its content, in JSON, under `d`.
pub open spec fn envelope(kind: Seq<char>, content: Seq<char>) -> Seq<char> {
    "{\"t\":\""@ + kind + "\",\"d\":"@ + content + "}"@
}

/// The content of an object of the wire: a JSON object with the given members.
pub open spec fn object_text(members: Seq<(Seq<char>, Seq<char>)>) -> Seq<char> {
    seq!['{'] + members_text(members) + seq!['}']
}

/// The members of an object in the making.
pub struct Members {
    text: String,
    count: Ghost<Seq<(Seq<char>, Seq<char>)>>,
    empty: bool,
}

impl View for Members {
    type V = Seq<(Seq<char>, Seq<char>)>;

    closed spec fn view(&self) -> Seq<(Seq<char>, Seq<char>)> {
        self.count@
    }
}

impl Members {
    #[verifier::type_invariant]
    spec fn well_formed(self) -> bool {
        self.text@ == members_text(self.count@) && self.empty == (self.count@.len() == 0)
    }

    /// No members.
    pub fn new() -> (r: Members)
        ensures
            r@.len() == 0,
    {
        Members { text: String::new(), count: Ghost(Seq::empty()), empty: true }
    }

    /// Adds a member with the given value in JSON. The name is written as it is.
    pub fn push(self, name: &str, value: &str) -> (r: Members)
        ensures
            r@ == self@.push((name@, value@)),
    {
        proof {
            use_type_invariant(&self);
        }
        let mut text = self.text;
        if !self.empty {
            text.push(',');
        }
        text.push('"');
        text.append(name);
        text.push('"');
        text.push(':');
        text.append(value);
        let ghost all = self.count@.push((name@, value@));
        proof {
            assert(all.drop_last() =~= self.count@);
            assert(text@ =~= members_text(all));
        }
        Members { text, count: Ghost(all), empty: false }
    }

    /// Adds a member with a text as its value.
    pub fn push_text(self, name: &str, value: &str) -> (r: Members)
        ensures
            r@ == self@.push((name@, quoted(value@))),
    {
        let q = quote(value);
        self.push(name, q.as_str())
    }

    /// The object of the wire with these members as its content.
    pub fn envelope(self, kind: &str) -> (r: String)
        ensures
            r@ == envelope(kind@, object_text(self@)),
    {
        proof {
            use_type_invariant(&self);
        }
        let mut r = "{\"t\":\"".to_owned();
        r.append(kind);
        r.append("\",\"d\":");
        r.push('{');
        r.append(self.text.as_str());
        r.push('}');
        r.append("}");
        assert(r@ =~= envelope(kind@, object_text(self@)));
        r
    }
}

/// The numbers of a list in decimal notation, with a comma between any two.
pub open spec fn numbers_text(v: Seq<i32>) -> Seq<char>
    decreases v.len(),
{
    if v.len() == 0 {
        Seq::empty()
    } else if v.len() == 1 {
        dec_int(v.last() as int)
    } else {
        numbers_text(v.drop_last()) + seq![','] + dec_int(v.last() as int)
    }
}

/// A spectrum as an object of the wire.
pub open spec fn spectrum_text(v: Seq<i32>) -> Seq<char> {
    envelope("s"@, seq!['['] + numbers_text(v) + seq![']'])
}

/// A spectrum as an object of the wire.
pub fn spectrum_json(v: &Vec<i32>) -> (r: String)
    ensures
        r@ == spectrum_text(v@),
{
    let mut list = String::new();
    let mut i: usize = 0;
    while i < v.len()
        invariant
            i <= v@.len(),
            list@ == numbers_text(v@.take(i as int)),
        decreases v.len() - i,
    {
        proof {
            assert(v@.take(i + 1).drop_last() =~= v@.take(i as int));
            assert(v@.take(i + 1).last() == v@[i as int]);
        }
        let ghost before = list@;
        if i > 0 {
            list.push(',');
        }
        let d = dec_int_text(v[i] as i64);
        list.append(d.as_str());
        assert(list@ =~= numbers_text(v@.take(i + 1)));
        i = i + 1;
    }
    assert(v@.take(i as int) =~= v@);
    let mut r = "{\"t\":\"".to_owned();
    r.append("s");
    r.append("\",\"d\":");
    r.push('[');
    r.append(list.as_str());
    r.push(']');
    r.append("}");
    assert(r@ =~= spectrum_text(v@));
    r
}

} // verus!
