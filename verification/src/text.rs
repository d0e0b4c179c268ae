//! Text: characters, decimal numbers, pieces and words.
//!
//! Every contract speaks of a text by its view, the sequence of its characters.
use vstd::prelude::*;
use vstd::string::*;
use vstd::utf8::{decode_utf8, valid_utf8};

verus! {

/// `String::push` of std appends the given character to the end of the text.
pub assume_specification[ String::push ](s: &mut String, c: char)
    ensures
        final(s)@ == old(s)@.push(c),
;

// ---------------------------------------------------------------------------
// Characters
// ---------------------------------------------------------------------------

/// An ASCII decimal digit.
pub open spec fn is_digit(c: char) -> bool {
    48 <= c as int <= 57
}

/// The character of a one-digit number.
pub open spec fn digit_char(d: int) -> char {
    (48 + d) as char
}

/// The characters with the Unicode property White_Space.
pub open spec fn is_space(c: char) -> bool {
    let n = c as int;
    ||| 0x09 <= n <= 0x0D
    ||| n == 0x20
    ||| n == 0x85
    ||| n == 0xA0
    ||| n == 0x1680
    ||| 0x2000 <= n <= 0x200A
    ||| n == 0x2028
    ||| n == 0x2029
    ||| n == 0x202F
    ||| n == 0x205F
    ||| n == 0x3000
}

/// An ASCII letter in upper case; any other character unchanged.
pub open spec fn upper_char(c: char) -> char {
    if 97 <= c as int <= 122 {
        (c as int - 32) as char
    } else {
        c
    }
}

/// An ASCII letter in lower case; any other character unchanged.
pub open spec fn lower_char(c: char) -> char {
    if 65 <= c as int <= 90 {
        (c as int + 32) as char
    } else {
        c
    }
}

/// A text with its ASCII letters in upper case.
pub open spec fn upper(s: Seq<char>) -> Seq<char> {
    Seq::new(s.len(), |i: int| upper_char(s[i]))
}

/// A text with its ASCII letters in lower case.
pub open spec fn lower(s: Seq<char>) -> Seq<char> {
    Seq::new(s.len(), |i: int| lower_char(s[i]))
}

pub fn digit_test(c: char) -> (r: bool)
    ensures
        r == is_digit(c),
{
    let n: u32 = c as u32;
    48 <= n && n <= 57
}

pub fn space_test(c: char) -> (r: bool)
    ensures
        r == is_space(c),
{
    let n: u32 = c as u32;
    (0x09 <= n && n <= 0x0D) || n == 0x20 || n == 0x85 || n == 0xA0 || n == 0x1680 || (0x2000 <= n
        && n <= 0x200A) || n == 0x2028 || n == 0x2029 || n == 0x202F || n == 0x205F || n == 0x3000
}

fn upper_of(c: char) -> (r: char)
    ensures
        r == upper_char(c),
{
    let n: u32 = c as u32;
    if 97 <= n && n <= 122 {
        let b: u8 = (n - 32) as u8;
        b as char
    } else {
        c
    }
}

fn lower_of(c: char) -> (r: char)
    ensures
        r == lower_char(c),
{
    let n: u32 = c as u32;
    if 65 <= n && n <= 90 {
        let b: u8 = (n + 32) as u8;
        b as char
    } else {
        c
    }
}

/// Calls `String::from_utf8` of std: the text that the bytes encode in UTF-8, or nothing, if they
/// are no valid UTF-8.
#[verifier::external_body]
pub(crate) fn text_from_utf8(bytes: Vec<u8>) -> (r: Option<String>)
    ensures
        r is Some <==> valid_utf8(bytes@),
        r is Some ==> r->0@ == decode_utf8(bytes@),
{
    String::from_utf8(bytes).ok()
}

/// What `String::from_utf8_lossy` of std makes of bytes: a text, with a replacement character where
/// they are no valid UTF-8.
pub uninterp spec fn lossy_text(bytes: Seq<u8>) -> Seq<char>;

/// Calls `String::from_utf8_lossy` of std. Valid UTF-8 it decodes. How many replacement characters
/// stand for bytes that are not is left to the name.
#[verifier::external_body]
pub(crate) fn text_from_utf8_lossy(bytes: &[u8]) -> (r: String)
    ensures
        r@ == lossy_text(bytes@),
        valid_utf8(bytes@) ==> r@ == decode_utf8(bytes@),
{
    String::from_utf8_lossy(bytes).into_owned()
}

// ---------------------------------------------------------------------------
// Whole texts
// ---------------------------------------------------------------------------

/// The characters of each text of a list.
pub open spec fn views(v: Seq<String>) -> Seq<Seq<char>> {
    Seq::new(v.len(), |i: int| v[i]@)
}

/// The characters of a text that may be missing.
pub open spec fn opt_view(o: Option<String>) -> Option<Seq<char>> {
    match o {
        Some(s) => Some(s@),
        None => None,
    }
}

/// Two texts hold the same characters.
pub fn same_text(a: &str, b: &str) -> (r: bool)
    ensures
        r == (a@ == b@),
{
    let x = a.to_owned();
    let y = b.to_owned();
    x == y
}

/// The characters of `s`.
pub fn to_chars(s: &str) -> (v: Vec<char>)
    ensures
        v@ == s@,
{
    let mut v: Vec<char> = Vec::new();
    for c in it: s.chars()
        invariant
            v@.len() == it.index(),
            it.seq() == s@,
            v@ =~= it.seq().take(it.index() as int),
    {
        v.push(c);
    }
    v
}

/// The text made of the characters `v[from..to]`.
pub fn text_of(v: &Vec<char>, from: usize, to: usize) -> (s: String)
    requires
        from <= to <= v@.len(),
    ensures
        s@ == v@.subrange(from as int, to as int),
{
    let mut s = String::new();
    let mut i: usize = from;
    while i < to
        invariant
            from <= i <= to <= v@.len(),
            s@ =~= v@.subrange(from as int, i as int),
        decreases to - i,
    {
        s.push(v[i]);
        i = i + 1;
    }
    s
}

/// The two texts one after the other.
pub fn joined(a: &str, b: &str) -> (s: String)
    ensures
        s@ == a@ + b@,
{
    let mut s = a.to_owned();
    s.append(b);
    s
}

/// `s` with its ASCII letters in upper case.
pub fn to_upper(s: &str) -> (r: String)
    ensures
        r@ == upper(s@),
{
    let v = to_chars(s);
    let mut r = String::new();
    let mut i: usize = 0;
    while i < v.len()
        invariant
            v@ == s@,
            i <= v.len(),
            r@ =~= upper(s@).take(i as int),
        decreases v.len() - i,
    {
        r.push(upper_of(v[i]));
        i = i + 1;
    }
    r
}

/// `s` with its ASCII letters in lower case.
pub fn to_lower(s: &str) -> (r: String)
    ensures
        r@ == lower(s@),
{
    let v = to_chars(s);
    let mut r = String::new();
    let mut i: usize = 0;
    while i < v.len()
        invariant
            v@ == s@,
            i <= v.len(),
            r@ =~= lower(s@).take(i as int),
        decreases v.len() - i,
    {
        r.push(lower_of(v[i]));
        i = i + 1;
    }
    r
}

// ---------------------------------------------------------------------------
// Decimal numbers
// ---------------------------------------------------------------------------

/// The decimal notation of a natural number.
pub open spec fn dec(n: nat) -> Seq<char>
    decreases n,
{
    if n < 10 {
        seq![digit_char(n as int)]
    } else {
        dec(n / 10).push(digit_char((n % 10) as int))
    }
}

/// The decimal notation of an integer, with a sign where it is negative.
pub open spec fn dec_int(i: int) -> Seq<char> {
    if i < 0 {
        seq!['-'] + dec((-i) as nat)
    } else {
        dec(i as nat)
    }
}

/// The decimal notation of a natural number, filled up with a zero to two digits.
pub open spec fn dec2(n: nat) -> Seq<char> {
    if n < 10 {
        seq!['0'] + dec(n)
    } else {
        dec(n)
    }
}

/// Only digits.
pub open spec fn all_digits(s: Seq<char>) -> bool {
    forall|i: int| 0 <= i < s.len() ==> is_digit(#[trigger] s[i])
}

/// The number that a run of digits stands for.
pub open spec fn digits_value(s: Seq<char>) -> nat
    decreases s.len(),
{
    if s.len() == 0 {
        0
    } else {
        (digits_value(s.drop_last()) * 10 + (s.last() as int - 48)) as nat
    }
}

/// The text is the notation of a natural number, with an optional plus sign.
pub open spec fn parse_nat(s: Seq<char>) -> Option<nat> {
    let d = if s.len() > 0 && s[0] == '+' {
        s.skip(1)
    } else {
        s
    };
    if d.len() > 0 && all_digits(d) {
        Some(digits_value(d))
    } else {
        None
    }
}

/// The text is the notation of an integer, with an optional sign.
pub open spec fn parse_int(s: Seq<char>) -> Option<int> {
    if s.len() > 0 && s[0] == '-' {
        let d = s.skip(1);
        if d.len() > 0 && all_digits(d) {
            Some(-digits_value(d))
        } else {
            None
        }
    } else {
        match parse_nat(s) {
            Some(n) => Some(n as int),
            None => None,
        }
    }
}

/// The value of the text as a natural number of at most `max`.
pub open spec fn nat_within(s: Seq<char>, max: int) -> Option<nat> {
    match parse_nat(s) {
        Some(n) if n <= max => Some(n),
        _ => None,
    }
}

/// The value of the text as an integer between `min` and `max`.
pub open spec fn int_within(s: Seq<char>, min: int, max: int) -> Option<int> {
    match parse_int(s) {
        Some(n) if min <= n <= max => Some(n),
        _ => None,
    }
}

/// Appends the decimal notation of `n`.
pub fn push_dec(out: &mut String, n: u64)
    ensures
        final(out)@ == old(out)@ + dec(n as nat),
    decreases n,
{
    if n >= 10 {
        push_dec(out, n / 10);
    }
    let d: u8 = (n % 10) as u8;
    out.push((48 + d) as char);
    assert(out@ =~= old(out)@ + dec(n as nat));
}

/// The decimal notation of `n`.
pub fn dec_text(n: u64) -> (s: String)
    ensures
        s@ == dec(n as nat),
{
    let mut s = String::new();
    push_dec(&mut s, n);
    assert(s@ =~= dec(n as nat));
    s
}

/// The decimal notation of `n`, with a sign where it is negative.
pub fn dec_int_text(n: i64) -> (s: String)
    ensures
        s@ == dec_int(n as int),
{
    let mut s = String::new();
    if n < 0 {
        s.push('-');
        let m: u64 = (-(n as i128)) as u64;
        push_dec(&mut s, m);
        assert(s@ =~= dec_int(n as int));
    } else {
        push_dec(&mut s, n as u64);
        assert(s@ =~= dec_int(n as int));
    }
    s
}

/// The decimal notation of `n` in at least two digits.
pub fn dec2_text(n: u64) -> (s: String)
    ensures
        s@ == dec2(n as nat),
{
    let mut s = String::new();
    if n < 10 {
        s.push('0');
    }
    push_dec(&mut s, n);
    assert(s@ =~= dec2(n as nat));
    s
}

/// A longer run of digits stands for a number at least as large.
proof fn lemma_value_grows(s: Seq<char>, i: int)
    requires
        0 <= i <= s.len(),
        all_digits(s),
    ensures
        digits_value(s.take(i)) <= digits_value(s),
    decreases s.len() - i,
{
    if i < s.len() {
        lemma_value_grows(s, i + 1);
        let t = s.take(i + 1);
        assert(t.drop_last() =~= s.take(i));
        assert(is_digit(s[i]));
        assert(t.last() == s[i]);
    } else {
        assert(s.take(i) =~= s);
    }
}

/// The value of the digits `v[from..]`, if there are any, nothing else stands there,
/// and the value is at most `max`.
fn read_digits(v: &Vec<char>, from: usize, max: u64) -> (r: Option<u64>)
    requires
        from <= v@.len(),
    ensures
        ({
            let d = v@.skip(from as int);
            match r {
                Some(n) => d.len() > 0 && all_digits(d) && digits_value(d) == n && n <= max,
                None => !(d.len() > 0 && all_digits(d) && digits_value(d) <= max),
            }
        }),
{
    let ghost d = v@.skip(from as int);
    if from == v.len() {
        return None;
    }
    let mut value: u64 = 0;
    let mut i: usize = from;
    while i < v.len()
        invariant
            from <= i <= v@.len(),
            from < v@.len(),
            d == v@.skip(from as int),
            all_digits(d.take(i - from)),
            digits_value(d.take(i - from)) == value,
            value <= max,
        decreases v.len() - i,
    {
        let c = v[i];
        assert(d[i - from] == c);
        if !digit_test(c) {
            return None;
        }
        let x: u64 = (c as u32 - 48) as u64;
        let wide: u128 = value as u128 * 10 + x as u128;
        proof {
            let t = d.take(i - from + 1);
            assert(t.drop_last() =~= d.take(i - from));
            assert(t.last() == c);
            assert(digits_value(t) == wide);
            if all_digits(d) {
                lemma_value_grows(d, i - from + 1);
            }
        }
        if wide > max as u128 {
            return None;
        }
        value = wide as u64;
        i = i + 1;
    }
    assert(d.take(i - from) =~= d);
    Some(value)
}

/// Reads a natural number of at most `max`.
pub fn read_nat(s: &str, max: u64) -> (r: Option<u64>)
    ensures
        match r {
            Some(n) => nat_within(s@, max as int) == Some(n as nat),
            None => nat_within(s@, max as int) is None,
        },
{
    let v = to_chars(s);
    if v.len() > 0 && v[0] == '+' {
        read_digits(&v, 1, max)
    } else {
        assert(v@.skip(0) =~= s@);
        read_digits(&v, 0, max)
    }
}

/// Reads a `u32`.
pub fn read_u32(s: &str) -> (r: Option<u32>)
    ensures
        match r {
            Some(n) => nat_within(s@, u32::MAX as int) == Some(n as nat),
            None => nat_within(s@, u32::MAX as int) is None,
        },
{
    match read_nat(s, u32::MAX as u64) {
        Some(n) => Some(n as u32),
        None => None,
    }
}

/// Reads an `i64`.
pub fn read_i64(s: &str) -> (r: Option<i64>)
    ensures
        match r {
            Some(n) => int_within(s@, i64::MIN as int, i64::MAX as int) == Some(n as int),
            None => int_within(s@, i64::MIN as int, i64::MAX as int) is None,
        },
{
    let v = to_chars(s);
    if v.len() > 0 && v[0] == '-' {
        match read_digits(&v, 1, 0x8000_0000_0000_0000) {
            Some(n) => Some((-(n as i128)) as i64),
            None => None,
        }
    } else {
        match read_nat(s, i64::MAX as u64) {
            Some(n) => Some(n as i64),
            None => None,
        }
    }
}

/// Reads an `i32`.
pub fn read_i32(s: &str) -> (r: Option<i32>)
    ensures
        match r {
            Some(n) => int_within(s@, i32::MIN as int, i32::MAX as int) == Some(n as int),
            None => int_within(s@, i32::MIN as int, i32::MAX as int) is None,
        },
{
    match read_i64(s) {
        Some(n) => {
            if (i32::MIN as i64) <= n && n <= (i32::MAX as i64) {
                Some(n as i32)
            } else {
                None
            }
        },
        None => None,
    }
}

/// The decimal notation of a number holds digits only, at least one, and stands for it.
pub proof fn law_dec_value(n: nat)
    ensures
        dec(n).len() > 0,
        all_digits(dec(n)),
        digits_value(dec(n)) == n,
    decreases n,
{
    if n >= 10 {
        law_dec_value(n / 10);
        assert(dec(n).drop_last() =~= dec(n / 10));
        assert forall|i: int| 0 <= i < dec(n).len() implies is_digit(#[trigger] dec(n)[i]) by {
            if i < dec(n / 10).len() {
                assert(dec(n)[i] == dec(n / 10)[i]);
            }
        }
    } else {
        assert(dec(n).drop_last() =~= Seq::<char>::empty());
        assert(digits_value(dec(n).drop_last()) == 0);
    }
}

/// Reading the decimal notation of an integer gives the integer back.
pub proof fn law_dec_round_trip(i: int)
    ensures
        parse_int(dec_int(i)) == Some(i),
{
    if i < 0 {
        law_dec_value((-i) as nat);
        assert(dec_int(i).skip(1) =~= dec((-i) as nat));
    } else {
        law_dec_value(i as nat);
        assert(is_digit(dec(i as nat)[0]));
    }
}

} // verus!
