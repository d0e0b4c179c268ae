//! What holds of texts: letters and numbers, words and lines, and the notation of lists.
use crate::json::{numbers_text, object_text, quoted};
use crate::paths::{dir_of, extension, is_plain, join_path, names_file, with_extension};
use crate::pieces::{
    contains_text, first_at, last_place, lemma_first_exists, lemma_last_place, lemma_pieces_len,
    lemma_split_first, lemma_words_len, lines, occurs_at, pieces, split_first, starts_with, trim,
    trim_left, trim_right, words,
};
use crate::text::{
    all_digits, dec, dec_int, digits_value, int_within, is_digit, is_space, law_dec_round_trip,
    law_dec_value, lower, nat_within, parse_int, parse_nat, upper,
};
use vstd::prelude::*;
use vstd::string::*;

verus! {

// ---------------------------------------------------------------------------
// Letters
// ---------------------------------------------------------------------------

/// A text in small letters has a small letter for each capital of the alphabet, and is otherwise the
/// same.
pub proof fn law_small_letters(s: Seq<char>, i: int)
    requires
        0 <= i < s.len(),
    ensures
        lower(s).len() == s.len(),
        'A' <= s[i] <= 'Z' ==> lower(s)[i] as int == s[i] as int + 32,
        !('A' <= s[i] <= 'Z') ==> lower(s)[i] == s[i],
        lower(lower(s)) == lower(s),
        lower(upper(s)) == lower(s),
{
    assert(lower(lower(s)) =~= lower(s));
    assert(lower(upper(s)) =~= lower(s));
}

/// The blank, the tab, the line feed and the carriage return are white space; no letter, digit or mark
/// of ASCII is.
pub proof fn law_white_space(c: char)
    ensures
        c == ' ' || c == '\t' || c == '\n' || c == '\r' ==> is_space(c),
        '!' <= c <= '~' ==> !is_space(c),
        c < '\t' || '\r' < c < ' ' ==> !is_space(c),
        is_digit(c) <==> '0' <= c <= '9',
{
}

/// Beyond ASCII, white space is the next line, the blank that does not break, and the blanks of
/// Unicode in their various widths, with its two separators.
pub proof fn law_wide_white_space(c: char)
    requires
        c > '~',
    ensures
        is_space(c) <==> {
            ||| c == '\u{85}' || c == '\u{a0}' || c == '\u{1680}'
            ||| '\u{2000}' <= c <= '\u{200a}'
            ||| c == '\u{2028}' || c == '\u{2029}' || c == '\u{202f}' || c == '\u{205f}'
            ||| c == '\u{3000}'
        },
{
}

// ---------------------------------------------------------------------------
// Numbers
// ---------------------------------------------------------------------------

/// A digit behind a number makes it ten times as large and adds the digit.
pub proof fn law_one_more_digit(s: Seq<char>, c: char)
    requires
        is_digit(c),
    ensures
        digits_value(Seq::empty()) == 0,
        digits_value(s.push(c)) == 10 * digits_value(s) + (c as int - '0' as int),
{
    assert(s.push(c).drop_last() =~= s);
}

/// The notation of a number does not begin with a zero, unless it is that of zero.
pub proof fn law_no_leading_zero(n: nat)
    ensures
        dec(n).len() > 0,
        n > 0 ==> dec(n)[0] != '0',
        n < 10 <==> dec(n).len() == 1,
        dec(0) == seq!['0'],
    decreases n,
{
    if n >= 10 {
        law_no_leading_zero(n / 10);
        assert(dec(n)[0] == dec(n / 10)[0]);
    }
}

/// A text is read as a number exactly if it is a run of digits, with a sign before it or not; a minus
/// makes the number negative, and a plus does not count.
pub proof fn law_signs(d: Seq<char>, s: Seq<char>)
    requires
        d.len() > 0,
        all_digits(d),
    ensures
        parse_int(d) == Some(digits_value(d) as int),
        parse_int(seq!['+'] + d) == Some(digits_value(d) as int),
        parse_int(seq!['-'] + d) == Some(-(digits_value(d) as int)),
        parse_nat(d) == Some(digits_value(d)),
        parse_nat(seq!['-'] + d) is None,
        parse_int(s) is Some <==> (s.len() > 0 && all_digits(s)) || (s.len() > 1 && (s[0] == '-'
            || s[0] == '+') && all_digits(s.skip(1))),
{
    assert(is_digit(d[0]));
    assert((seq!['+'] + d).skip(1) =~= d);
    assert((seq!['-'] + d).skip(1) =~= d);
    assert((seq!['-'] + d)[0] == '-');
    assert(!is_digit((seq!['-'] + d)[0]));
    if s.len() > 0 && all_digits(s) {
        assert(is_digit(s[0]));
    }
}

/// A number is read within its bounds exactly if it lies within them.
pub proof fn law_bounds(s: Seq<char>, min: int, max: int)
    ensures
        int_within(s, min, max) matches Some(n) ==> parse_int(s) == Some(n) && min <= n <= max,
        parse_int(s) matches Some(n) ==> (min <= n <= max ==> int_within(s, min, max) == Some(n)),
        nat_within(s, max) matches Some(n) ==> parse_nat(s) == Some(n) && n <= max,
        parse_nat(s) matches Some(n) ==> (n <= max ==> nat_within(s, max) == Some(n)),
{
}

// ---------------------------------------------------------------------------
// Searching
// ---------------------------------------------------------------------------

/// A text that stands between two others is found there, and one at the beginning begins the whole.
pub proof fn law_found(a: Seq<char>, pat: Seq<char>, b: Seq<char>)
    ensures
        contains_text(a + pat + b, pat),
        starts_with(pat + b, pat),
{
    assert((a + pat + b).subrange(a.len() as int, a.len() as int + pat.len()) =~= pat);
    assert(occurs_at(a + pat + b, pat, a.len() as int));
    assert((pat + b).subrange(0, pat.len() as int) =~= pat);
}

/// A text is found in another only where it stands there: what is round it makes the other up.
pub proof fn law_found_only_there(s: Seq<char>, pat: Seq<char>)
    ensures
        contains_text(s, pat) <==> exists|a: Seq<char>, b: Seq<char>| s == #[trigger] (a + pat + b),
        starts_with(s, pat) <==> exists|b: Seq<char>| s == #[trigger] (pat + b),
{
    if contains_text(s, pat) {
        let i = choose|i: int| occurs_at(s, pat, i);
        let a = s.take(i);
        let b = s.skip(i + pat.len());
        assert(s =~= a + s.subrange(i, i + pat.len()) + b);
        assert(s == a + pat + b);
    }
    if exists|a: Seq<char>, b: Seq<char>| s == #[trigger] (a + pat + b) {
        let (a, b) = choose|a: Seq<char>, b: Seq<char>| s == #[trigger] (a + pat + b);
        law_found(a, pat, b);
    }
    if starts_with(s, pat) {
        let b = s.skip(pat.len() as int);
        assert(s =~= s.subrange(0, pat.len() as int) + b);
        assert(s == pat + b);
    }
    if exists|b: Seq<char>| s == #[trigger] (pat + b) {
        let b = choose|b: Seq<char>| s == #[trigger] (pat + b);
        law_found(Seq::empty(), pat, b);
    }
}

/// A text is split exactly if the pattern stands in it. The parts and the pattern between them make
/// the text, and the pattern stands at no earlier place.
pub proof fn law_split_in_two(s: Seq<char>, pat: Seq<char>)
    ensures
        split_first(s, pat) is Some <==> contains_text(s, pat),
        split_first(s, pat) matches Some(p) ==> {
            &&& s == p.0 + pat + p.1
            &&& forall|j: int| j < p.0.len() ==> !occurs_at(s, pat, j)
        },
{
    if contains_text(s, pat) {
        let i = choose|i: int| occurs_at(s, pat, i);
        lemma_first_exists(s, pat, i);
        let k = choose|k: int| first_at(s, pat, k);
        lemma_split_first(s, pat, k);
        assert(s =~= s.take(k) + s.subrange(k, k + pat.len()) + s.skip(k + pat.len()));
    }
}

// ---------------------------------------------------------------------------
// Splitting
// ---------------------------------------------------------------------------

/// The pieces of a text in which the character does not stand are the text alone; where it stands, the
/// pieces before it and those behind it follow each other.
pub proof fn law_pieces(a: Seq<char>, c: char, b: Seq<char>)
    ensures
        (forall|i: int| 0 <= i < a.len() ==> a[i] != c) ==> pieces(a, c) == seq![a],
        pieces(a + seq![c] + b, c) == pieces(a, c) + pieces(b, c),
{
    if forall|i: int| 0 <= i < a.len() ==> a[i] != c {
        lemma_one_piece(a, c);
    }
    lemma_pieces_apart(a, c, b);
}

proof fn lemma_one_piece(a: Seq<char>, c: char)
    requires
        forall|i: int| 0 <= i < a.len() ==> a[i] != c,
    ensures
        pieces(a, c) == seq![a],
    decreases a.len(),
{
    if a.len() == 0 {
        assert(a =~= Seq::<char>::empty());
        assert(pieces(a, c) =~= seq![a]);
    } else {
        let t = a.drop_last();
        assert forall|i: int| 0 <= i < t.len() implies t[i] != c by {
            assert(t[i] == a[i]);
        }
        lemma_one_piece(t, c);
        assert(a.last() == a[a.len() - 1]);
        assert(t.push(a.last()) =~= a);
        assert(pieces(a, c) =~= seq![a]);
    }
}

proof fn lemma_pieces_apart(a: Seq<char>, c: char, b: Seq<char>)
    ensures
        pieces(a + seq![c] + b, c) == pieces(a, c) + pieces(b, c),
    decreases b.len(),
{
    let s = a + seq![c] + b;
    lemma_pieces_len(a, c);
    if b.len() == 0 {
        assert(s.drop_last() =~= a);
        assert(s.last() == c);
        assert(pieces(s, c) =~= pieces(a, c) + pieces(b, c));
    } else {
        let t = b.drop_last();
        lemma_pieces_apart(a, c, t);
        lemma_pieces_len(t, c);
        assert(s.drop_last() =~= a + seq![c] + t);
        assert(s.last() == b.last());
        assert(pieces(s, c) =~= pieces(a, c) + pieces(b, c));
    }
}

/// A text without white space is one word; white space parts the words before it from those behind it,
/// and is part of none.
pub proof fn law_words(a: Seq<char>, c: char, b: Seq<char>)
    requires
        is_space(c),
    ensures
        words(Seq::empty()).len() == 0,
        a.len() > 0 && (forall|i: int| 0 <= i < a.len() ==> !is_space(a[i])) ==> words(a) == seq![a],
        words(a + seq![c] + b) == words(a) + words(b),
{
    if a.len() > 0 && (forall|i: int| 0 <= i < a.len() ==> !is_space(a[i])) {
        lemma_one_word(a);
    }
    lemma_words_apart(a, c, b);
}

proof fn lemma_one_word(a: Seq<char>)
    requires
        a.len() > 0,
        forall|i: int| 0 <= i < a.len() ==> !is_space(a[i]),
    ensures
        words(a) == seq![a],
    decreases a.len(),
{
    let t = a.drop_last();
    assert(a.last() == a[a.len() - 1]);
    if a.len() == 1 {
        assert(t =~= Seq::<char>::empty());
        assert(words(t) =~= Seq::<Seq<char>>::empty());
        assert(seq![a.last()] =~= a);
        assert(words(a) =~= seq![a]);
    } else {
        assert forall|i: int| 0 <= i < t.len() implies !is_space(t[i]) by {
            assert(t[i] == a[i]);
        }
        lemma_one_word(t);
        assert(!is_space(a[a.len() - 2]));
        assert(t.push(a.last()) =~= a);
        assert(words(a) =~= seq![a]);
    }
}

proof fn lemma_words_apart(a: Seq<char>, c: char, b: Seq<char>)
    requires
        is_space(c),
    ensures
        words(a + seq![c] + b) == words(a) + words(b),
    decreases b.len(),
{
    let s = a + seq![c] + b;
    if b.len() == 0 {
        assert(s.drop_last() =~= a);
        assert(s.last() == c);
        assert(words(s) =~= words(a) + words(b));
    } else {
        let t = b.drop_last();
        lemma_words_apart(a, c, t);
        lemma_words_len(t);
        assert(s.drop_last() =~= a + seq![c] + t);
        assert(s.last() == b.last());
        if b.len() == 1 {
            assert(s[s.len() - 2] == c);
            assert(words(t).len() == 0);
        } else {
            assert(s[s.len() - 2] == b[b.len() - 2]);
            assert(t.last() == b[b.len() - 2]);
        }
        assert(words(s) =~= words(a) + words(b));
    }
}

/// A line feed ends a line, and so does a carriage return with it; what is left of a text is a line,
/// too, unless it is empty.
pub proof fn law_lines(l: Seq<char>, rest: Seq<char>)
    requires
        forall|i: int| 0 <= i < l.len() ==> l[i] != '\n',
    ensures
        lines(Seq::empty()).len() == 0,
        l.len() > 0 ==> lines(l) == seq![l],
        l.len() == 0 || l.last() != '\r' ==> lines(l + seq!['\n'] + rest) == seq![l] + lines(rest),
        lines(l + seq!['\r', '\n'] + rest) == seq![l] + lines(rest),
{
    lemma_one_piece(Seq::empty(), '\n');
    lemma_one_piece(l, '\n');
    if l.len() > 0 {
        assert(lines(l) =~= seq![l]);
    }
    lemma_pieces_len(rest, '\n');
    lemma_pieces_apart(l, '\n', rest);
    if l.len() == 0 || l.last() != '\r' {
        assert(lines(l + seq!['\n'] + rest) =~= seq![l] + lines(rest));
    }
    let r = l.push('\r');
    assert forall|i: int| 0 <= i < r.len() implies r[i] != '\n' by {
        if i < l.len() {
            assert(r[i] == l[i]);
        }
    }
    lemma_one_piece(r, '\n');
    lemma_pieces_apart(r, '\n', rest);
    assert(l + seq!['\r', '\n'] + rest =~= r + seq!['\n'] + rest);
    assert(r.drop_last() =~= l);
    assert(lines(l + seq!['\r', '\n'] + rest) =~= seq![l] + lines(rest));
}

/// White space round a text is taken off it, and nothing else is.
pub proof fn law_trim(a: Seq<char>, s: Seq<char>, b: Seq<char>)
    requires
        forall|i: int| 0 <= i < a.len() ==> is_space(a[i]),
        forall|i: int| 0 <= i < b.len() ==> is_space(b[i]),
        s.len() == 0 || (!is_space(s[0]) && !is_space(s.last())),
    ensures
        trim(a + s + b) == s,
{
    if s.len() == 0 {
        let t = a + b;
        assert(a + s + b =~= t);
        assert(t + s =~= t);
        lemma_trim_left(t, s);
        assert(trim_right(s) =~= s);
    } else {
        assert(a + s + b =~= a + (s + b));
        assert((s + b)[0] == s[0]);
        lemma_trim_left(a, s + b);
        lemma_trim_right(s, b);
    }
}

proof fn lemma_trim_left(a: Seq<char>, s: Seq<char>)
    requires
        forall|i: int| 0 <= i < a.len() ==> is_space(a[i]),
        s.len() == 0 || !is_space(s[0]),
    ensures
        trim_left(a + s) == s,
    decreases a.len(),
{
    if a.len() == 0 {
        assert(a + s =~= s);
    } else {
        let t = a.skip(1);
        assert forall|i: int| 0 <= i < t.len() implies is_space(t[i]) by {
            assert(t[i] == a[i + 1]);
        }
        lemma_trim_left(t, s);
        assert((a + s)[0] == a[0]);
        assert((a + s).skip(1) =~= t + s);
    }
}

proof fn lemma_trim_right(s: Seq<char>, b: Seq<char>)
    requires
        forall|i: int| 0 <= i < b.len() ==> is_space(b[i]),
        s.len() == 0 || !is_space(s.last()),
    ensures
        trim_right(s + b) == s,
    decreases b.len(),
{
    if b.len() == 0 {
        assert(s + b =~= s);
    } else {
        let t = b.drop_last();
        assert forall|i: int| 0 <= i < t.len() implies is_space(t[i]) by {
            assert(t[i] == b[i]);
        }
        lemma_trim_right(s, t);
        assert((s + b).last() == b[b.len() - 1]);
        assert((s + b).drop_last() =~= s + t);
    }
}

// ---------------------------------------------------------------------------
// Lists
// ---------------------------------------------------------------------------

/// The numbers of a list are read back from between its commas, each in its place.
pub proof fn law_numbers_read_back(v: Seq<i32>)
    requires
        v.len() > 0,
    ensures
        pieces(numbers_text(v), ',').len() == v.len(),
        forall|i: int|
            0 <= i < v.len() ==> parse_int(#[trigger] pieces(numbers_text(v), ',')[i]) == Some(
                v[i] as int,
            ),
    decreases v.len(),
{
    let n = v.len() as int;
    let x = v.last() as int;
    let d = dec_int(x);
    law_dec_round_trip(x);
    assert forall|i: int| 0 <= i < d.len() implies d[i] != ',' by {
        lemma_number_chars(x, i);
    }
    lemma_one_piece(d, ',');
    if n > 1 {
        let t = v.drop_last();
        law_numbers_read_back(t);
        lemma_pieces_apart(numbers_text(t), ',', d);
        let p = pieces(numbers_text(v), ',');
        assert(p == pieces(numbers_text(t), ',') + seq![d]);
        assert forall|i: int| 0 <= i < n implies parse_int(#[trigger] p[i]) == Some(v[i] as int) by {
            if i < n - 1 {
                assert(p[i] == pieces(numbers_text(t), ',')[i]);
                assert(t[i] == v[i]);
            }
        }
    }
}

pub proof fn lemma_number_chars(x: int, i: int)
    requires
        0 <= i < dec_int(x).len(),
    ensures
        is_digit(dec_int(x)[i]) || dec_int(x)[i] == '-',
{
    if x < 0 {
        law_dec_value((-x) as nat);
        if i > 0 {
            assert(dec_int(x)[i] == dec((-x) as nat)[i - 1]);
        }
    } else {
        law_dec_value(x as nat);
    }
}

// ---------------------------------------------------------------------------
// Paths
// ---------------------------------------------------------------------------

/// A path that begins at the root stands for itself, wherever it is seen from; another one is what
/// stands behind the directory and one slash.
pub proof fn law_join(base: Seq<char>, rest: Seq<char>)
    ensures
        rest.len() > 0 && rest[0] == '/' ==> join_path(base, rest) == rest,
        (rest.len() == 0 || rest[0] != '/') && base.len() > 0 && base.last() != '/' ==> join_path(
            base,
            rest,
        ) == base + seq!['/'] + rest,
        (rest.len() == 0 || rest[0] != '/') && (base.len() == 0 || base.last() == '/') ==> join_path(
            base,
            rest,
        ) == base + rest,
{
    assert(base.push('/') + rest =~= base + seq!['/'] + rest);
}

/// The directory of a file in it is the directory.
pub proof fn law_dir_of_a_file(dir: Seq<char>, name: Seq<char>)
    requires
        dir.len() > 0,
        dir.last() != '/',
        forall|i: int| 0 <= i < name.len() ==> name[i] != '/',
    ensures
        dir_of(join_path(dir, name)) == dir,
        dir_of(name) == Seq::<char>::empty(),
        dir_of(seq!['/'] + name) == seq!['/'],
{
    lemma_last_place(name, '/');
    let p = join_path(dir, name);
    lemma_last_place(p, '/');
    let n = dir.len() as int;
    assert(p =~= dir + seq!['/'] + name);
    assert(p[n] == '/');
    assert forall|j: int| n < j < p.len() implies p[j] != '/' by {
        assert(p[j] == name[j - n - 1]);
    }
    assert(last_place(p, '/') == n);
    assert(p.take(n) =~= dir);
    let q = seq!['/'] + name;
    lemma_last_place(q, '/');
    assert(q[0] == '/');
    assert forall|j: int| 0 < j < q.len() implies q[j] != '/' by {
        assert(q[j] == name[j - 1]);
    }
    assert(last_place(q, '/') == 0);
}

/// The extension of a file is what stands behind the last dot of its name, and another one takes its
/// place; a file without one gets it behind its name.
pub proof fn law_extensions(dir: Seq<char>, stem: Seq<char>, ext: Seq<char>, other: Seq<char>)
    requires
        dir.len() == 0 || dir.last() == '/',
        stem.len() > 0,
        forall|i: int| 0 <= i < stem.len() ==> stem[i] != '/',
        forall|i: int| 0 <= i < ext.len() ==> ext[i] != '/' && ext[i] != '.',
    ensures
        extension(dir + stem + seq!['.'] + ext) == ext,
        with_extension(dir + stem + seq!['.'] + ext, other) == dir + stem + seq!['.'] + other,
        (forall|i: int| 0 <= i < stem.len() ==> stem[i] != '.') ==> extension(dir + stem).len() == 0
            && with_extension(dir + stem, other) == dir + stem + seq!['.'] + other,
{
    let p = dir + stem + seq!['.'] + ext;
    let d = dir.len() as int;
    let s = stem.len() as int;
    lemma_last_place(p, '/');
    lemma_last_place(p, '.');
    assert forall|j: int| d <= j < p.len() implies p[j] != '/' by {
        if j < d + s {
            assert(p[j] == stem[j - d]);
        } else if j > d + s {
            assert(p[j] == ext[j - d - s - 1]);
        }
    }
    if d > 0 {
        assert(p[d - 1] == dir.last());
    }
    assert(last_place(p, '/') == d - 1);
    assert(p[d + s] == '.');
    assert forall|j: int| d + s < j < p.len() implies p[j] != '.' by {
        assert(p[j] == ext[j - d - s - 1]);
    }
    assert(last_place(p, '.') == d + s);
    assert(extension(p) =~= ext);
    assert(with_extension(p, other) =~= dir + stem + seq!['.'] + other);
    if forall|i: int| 0 <= i < stem.len() ==> stem[i] != '.' {
        let q = dir + stem;
        lemma_last_place(q, '/');
        lemma_last_place(q, '.');
        assert forall|j: int| d <= j < q.len() implies q[j] != '/' && q[j] != '.' by {
            assert(q[j] == stem[j - d]);
        }
        if d > 0 {
            assert(q[d - 1] == dir.last());
        }
        assert(last_place(q, '/') == d - 1);
        assert(last_place(q, '.') < d);
        assert(with_extension(q, other) =~= dir + stem + seq!['.'] + other);
    }
}

/// A path names a file exactly if something stands behind its last slash, other than one dot or two.
pub proof fn law_file_names(dir: Seq<char>, name: Seq<char>)
    requires
        dir.len() == 0 || dir.last() == '/',
        forall|i: int| 0 <= i < name.len() ==> name[i] != '/',
    ensures
        names_file(dir + name) <==> name.len() > 0 && name != seq!['.'] && name != seq!['.', '.'],
{
    let p = dir + name;
    let d = dir.len() as int;
    lemma_last_place(p, '/');
    assert forall|j: int| d <= j < p.len() implies p[j] != '/' by {
        assert(p[j] == name[j - d]);
    }
    if d > 0 {
        assert(p[d - 1] == dir.last());
    }
    assert(last_place(p, '/') == d - 1);
    assert(p.skip(d) =~= name);
}

} // verus!
