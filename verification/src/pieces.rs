//! Looking into a text: searching, splitting, trimming and ordering.
use crate::text::{is_space, space_test, text_of, to_chars, views};
use vstd::prelude::*;
use vstd::string::*;

verus! {

// ---------------------------------------------------------------------------
// Searching
// ---------------------------------------------------------------------------

/// `pat` stands in `s` at position `i`.
pub open spec fn occurs_at(s: Seq<char>, pat: Seq<char>, i: int) -> bool {
    0 <= i && i + pat.len() <= s.len() && s.subrange(i, i + pat.len()) == pat
}

/// `s` begins with `pat`.
pub open spec fn starts_with(s: Seq<char>, pat: Seq<char>) -> bool {
    occurs_at(s, pat, 0)
}

/// `pat` stands somewhere in `s`.
pub open spec fn contains_text(s: Seq<char>, pat: Seq<char>) -> bool {
    exists|i: int| occurs_at(s, pat, i)
}

/// `pat` stands in `s` at `i` and nowhere before.
pub open spec fn first_at(s: Seq<char>, pat: Seq<char>, i: int) -> bool {
    occurs_at(s, pat, i) && forall|j: int| j < i ==> !occurs_at(s, pat, j)
}

/// The parts of `s` before and after the first `pat`, if `pat` stands in `s`.
pub open spec fn split_first(s: Seq<char>, pat: Seq<char>) -> Option<(Seq<char>, Seq<char>)> {
    if contains_text(s, pat) {
        let i = choose|i: int| first_at(s, pat, i);
        Some((s.take(i), s.skip(i + pat.len())))
    } else {
        None
    }
}

/// The last place of `c` in `s`, or -1.
pub open spec fn last_place(s: Seq<char>, c: char) -> int
    decreases s.len(),
{
    if s.len() == 0 {
        -1
    } else if s.last() == c {
        s.len() - 1
    } else {
        last_place(s.drop_last(), c)
    }
}

/// Where a pattern stands in a text at all, it stands there a first time.
pub proof fn lemma_first_exists(s: Seq<char>, pat: Seq<char>, i: int)
    requires
        occurs_at(s, pat, i),
    ensures
        exists|k: int| first_at(s, pat, k),
    decreases i,
{
    if forall|j: int| j < i ==> !occurs_at(s, pat, j) {
        assert(first_at(s, pat, i));
    } else {
        let j = choose|j: int| j < i && occurs_at(s, pat, j);
        lemma_first_exists(s, pat, j);
    }
}

/// What `split_first` gives for the first place of a pattern.
pub proof fn lemma_split_first(s: Seq<char>, pat: Seq<char>, i: int)
    requires
        first_at(s, pat, i),
    ensures
        split_first(s, pat) == Some((s.take(i), s.skip(i + pat.len()))),
{
    let k = choose|k: int| first_at(s, pat, k);
    assert(first_at(s, pat, k));
    assert(k == i);
}

/// `pat` stands in `v` at position `i`.
pub fn match_at(v: &Vec<char>, pat: &Vec<char>, i: usize) -> (r: bool)
    requires
        i <= v@.len(),
    ensures
        r == occurs_at(v@, pat@, i as int),
{
    let n: usize = v.len();
    if n - i < pat.len() {
        return false;
    }
    let mut k: usize = 0;
    while k < pat.len()
        invariant
            n == v@.len(),
            i <= n,
            pat@.len() <= n - i,
            k <= pat@.len(),
            forall|j: int| 0 <= j < k ==> v@[i + j] == #[trigger] pat@[j],
        decreases pat.len() - k,
    {
        if v[i + k] != pat[k] {
            assert(v@.subrange(i as int, i + pat@.len())[k as int] != pat@[k as int]);
            return false;
        }
        k = k + 1;
    }
    assert(v@.subrange(i as int, i + pat@.len()) =~= pat@);
    true
}

/// The first place of `pat` in `v`.
fn find(v: &Vec<char>, pat: &Vec<char>) -> (r: Option<usize>)
    ensures
        match r {
            Some(i) => first_at(v@, pat@, i as int),
            None => !contains_text(v@, pat@),
        },
{
    let mut i: usize = 0;
    while i < v.len()
        invariant
            i <= v@.len(),
            forall|j: int| j < i ==> !occurs_at(v@, pat@, j),
        decreases v.len() - i,
    {
        if match_at(v, pat, i) {
            return Some(i);
        }
        i = i + 1;
    }
    if match_at(v, pat, i) {
        return Some(i);
    }
    None
}

/// Whether `s` begins with `pat`.
pub fn begins_with(s: &str, pat: &str) -> (r: bool)
    ensures
        r == starts_with(s@, pat@),
{
    let v = to_chars(s);
    let p = to_chars(pat);
    match_at(&v, &p, 0)
}

/// Whether `pat` stands in `s`.
pub fn has_text(s: &str, pat: &str) -> (r: bool)
    ensures
        r == contains_text(s@, pat@),
{
    let v = to_chars(s);
    let p = to_chars(pat);
    match find(&v, &p) {
        Some(i) => true,
        None => false,
    }
}

/// What follows `pat` at the beginning of `s`.
pub fn after_prefix(s: &str, pat: &str) -> (r: Option<String>)
    ensures
        match r {
            Some(t) => starts_with(s@, pat@) && t@ == s@.skip(pat@.len() as int),
            None => !starts_with(s@, pat@),
        },
{
    let v = to_chars(s);
    let p = to_chars(pat);
    if match_at(&v, &p, 0) {
        let t = text_of(&v, p.len(), v.len());
        assert(v@.subrange(p@.len() as int, v@.len() as int) =~= v@.skip(p@.len() as int));
        Some(t)
    } else {
        None
    }
}

/// The parts of `s` before and after the first `pat`.
pub fn split_text(s: &str, pat: &str) -> (r: Option<(String, String)>)
    ensures
        match r {
            Some((a, b)) => split_first(s@, pat@) == Some((a@, b@)),
            None => split_first(s@, pat@) is None,
        },
{
    let v = to_chars(s);
    let p = to_chars(pat);
    match find(&v, &p) {
        Some(i) => {
            let n: usize = v.len();
            let a = text_of(&v, 0, i);
            let b = text_of(&v, i + p.len(), n);
            proof {
                lemma_split_first(s@, pat@, i as int);
                assert(v@.subrange(0, i as int) =~= v@.take(i as int));
                assert(v@.subrange(i + p@.len(), v@.len() as int) =~= v@.skip(i + p@.len()));
            }
            Some((a, b))
        },
        None => None,
    }
}

/// The last place of `c` in `v`.
pub fn find_last(v: &Vec<char>, c: char) -> (r: Option<usize>)
    ensures
        match r {
            Some(i) => i < v@.len() && last_place(v@, c) == i,
            None => last_place(v@, c) == -1,
        },
{
    let mut n: usize = v.len();
    assert(v@.take(n as int) =~= v@);
    while n > 0
        invariant
            n <= v@.len(),
            last_place(v@, c) == last_place(v@.take(n as int), c),
        decreases n,
    {
        assert(v@.take(n as int).last() == v@[n - 1]);
        assert(v@.take(n as int).drop_last() =~= v@.take(n - 1));
        if v[n - 1] == c {
            return Some(n - 1);
        }
        n = n - 1;
    }
    None
}

/// The last place of a character holds it, and no later place does.
pub proof fn lemma_last_place(s: Seq<char>, c: char)
    ensures
        -1 <= last_place(s, c) < s.len(),
        last_place(s, c) >= 0 ==> s[last_place(s, c)] == c,
        forall|j: int| last_place(s, c) < j < s.len() ==> s[j] != c,
    decreases s.len(),
{
    if s.len() > 0 && s.last() != c {
        lemma_last_place(s.drop_last(), c);
        assert forall|j: int| last_place(s, c) < j < s.len() implies s[j] != c by {
            if j < s.len() - 1 {
                assert(s.drop_last()[j] == s[j]);
            }
        }
    }
}

// ---------------------------------------------------------------------------
// Splitting
// ---------------------------------------------------------------------------

/// The pieces of `s` between the characters `c`: one more than there are of them.
pub open spec fn pieces(s: Seq<char>, c: char) -> Seq<Seq<char>>
    decreases s.len(),
{
    if s.len() == 0 {
        seq![Seq::empty()]
    } else {
        let p = pieces(s.drop_last(), c);
        if s.last() == c {
            p.push(Seq::empty())
        } else {
            p.drop_last().push(p.last().push(s.last()))
        }
    }
}

/// The words of `s`: its longest runs of characters other than white space.
pub open spec fn words(s: Seq<char>) -> Seq<Seq<char>>
    decreases s.len(),
{
    if s.len() == 0 {
        Seq::empty()
    } else {
        let w = words(s.drop_last());
        if is_space(s.last()) {
            w
        } else if s.len() == 1 || is_space(s[s.len() - 2]) {
            w.push(seq![s.last()])
        } else {
            w.drop_last().push(w.last().push(s.last()))
        }
    }
}

/// A line without the carriage return that ends it.
pub open spec fn without_cr(s: Seq<char>) -> Seq<char> {
    if s.len() > 0 && s.last() == '\r' {
        s.drop_last()
    } else {
        s
    }
}

/// The lines of `s`. A line feed ends a line, and so does a carriage return before it; what
/// follows the last line feed is a line where it is not empty.
pub open spec fn lines(s: Seq<char>) -> Seq<Seq<char>> {
    let p = pieces(s, '\n');
    let ended = Seq::new((p.len() - 1) as nat, |i: int| without_cr(p[i]));
    if p.last().len() == 0 {
        ended
    } else {
        ended.push(p.last())
    }
}

/// `s` without white space at its beginning.
pub open spec fn trim_left(s: Seq<char>) -> Seq<char>
    decreases s.len(),
{
    if s.len() > 0 && is_space(s[0]) {
        trim_left(s.skip(1))
    } else {
        s
    }
}

/// `s` without white space at its end.
pub open spec fn trim_right(s: Seq<char>) -> Seq<char>
    decreases s.len(),
{
    if s.len() > 0 && is_space(s.last()) {
        trim_right(s.drop_last())
    } else {
        s
    }
}

/// `s` without white space at both ends.
pub open spec fn trim(s: Seq<char>) -> Seq<char> {
    trim_right(trim_left(s))
}

/// `s` without carriage returns and line feeds at its end.
pub open spec fn without_line_end(s: Seq<char>) -> Seq<char>
    decreases s.len(),
{
    if s.len() > 0 && (s.last() == '\r' || s.last() == '\n') {
        without_line_end(s.drop_last())
    } else {
        s
    }
}

/// A text has at least one piece.
pub proof fn lemma_pieces_len(s: Seq<char>, c: char)
    ensures
        pieces(s, c).len() >= 1,
    decreases s.len(),
{
    if s.len() > 0 {
        lemma_pieces_len(s.drop_last(), c);
    }
}

/// A text that does not end in white space has a word: the one that ends it.
pub proof fn lemma_words_len(s: Seq<char>)
    ensures
        s.len() > 0 && !is_space(s.last()) ==> words(s).len() >= 1,
    decreases s.len(),
{
    if s.len() > 0 {
        lemma_words_len(s.drop_last());
    }
}

/// Takes the last text off the list, adds `c` to it, and puts it back.
fn extend_last(list: &mut Vec<String>, c: char)
    requires
        old(list)@.len() > 0,
    ensures
        views(final(list)@) == views(old(list)@).drop_last().push(
            views(old(list)@).last().push(c),
        ),
{
    let ghost before = views(list@);
    match list.pop() {
        Some(mut t) => {
            assert(views(list@) =~= before.drop_last());
            t.push(c);
            list.push(t);
            assert(views(list@) =~= before.drop_last().push(before.last().push(c)));
        },
        None => {},
    }
}

/// The pieces of `s` between the characters `c`.
pub fn split_on(s: &str, c: char) -> (r: Vec<String>)
    ensures
        views(r@) == pieces(s@, c),
{
    let v = to_chars(s);
    let mut r: Vec<String> = Vec::new();
    r.push(String::new());
    assert(v@.take(0) =~= Seq::<char>::empty());
    assert(views(r@) =~= pieces(v@.take(0), c));
    let mut i: usize = 0;
    while i < v.len()
        invariant
            v@ == s@,
            i <= v@.len(),
            views(r@) == pieces(v@.take(i as int), c),
        decreases v.len() - i,
    {
        proof {
            lemma_pieces_len(v@.take(i as int), c);
            assert(v@.take(i + 1).drop_last() =~= v@.take(i as int));
            assert(v@.take(i + 1).last() == v@[i as int]);
            assert(r@.len() == views(r@).len());
        }
        if v[i] == c {
            let ghost before = views(r@);
            r.push(String::new());
            assert(views(r@) =~= before.push(Seq::empty()));
        } else {
            extend_last(&mut r, v[i]);
        }
        i = i + 1;
    }
    assert(v@.take(i as int) =~= s@);
    r
}

/// The words of `s`.
pub fn split_words(s: &str) -> (r: Vec<String>)
    ensures
        views(r@) == words(s@),
{
    let v = to_chars(s);
    let mut r: Vec<String> = Vec::new();
    assert(views(r@) =~= words(v@.take(0)));
    let mut i: usize = 0;
    while i < v.len()
        invariant
            v@ == s@,
            i <= v@.len(),
            views(r@) == words(v@.take(i as int)),
        decreases v.len() - i,
    {
        proof {
            lemma_words_len(v@.take(i as int));
            assert(v@.take(i + 1).drop_last() =~= v@.take(i as int));
            assert(v@.take(i + 1).last() == v@[i as int]);
            assert(r@.len() == views(r@).len());
            if i > 0 {
                assert(v@.take(i as int).last() == v@[i - 1]);
            }
        }
        if !space_test(v[i]) {
            if i == 0 || space_test(v[i - 1]) {
                let ghost before = views(r@);
                let mut w = String::new();
                w.push(v[i]);
                r.push(w);
                assert(w@ =~= seq![v@[i as int]]);
                assert(views(r@) =~= before.push(seq![v@[i as int]]));
            } else {
                extend_last(&mut r, v[i]);
            }
        }
        i = i + 1;
    }
    assert(v@.take(i as int) =~= s@);
    r
}

/// `s` without the carriage return that ends it.
fn drop_cr(s: &str) -> (r: String)
    ensures
        r@ == without_cr(s@),
{
    let v = to_chars(s);
    let n: usize = v.len();
    if n > 0 && v[n - 1] == '\r' {
        let t = text_of(&v, 0, n - 1);
        assert(t@ =~= s@.drop_last());
        t
    } else {
        s.to_owned()
    }
}

/// The lines of `s`.
pub fn split_lines(s: &str) -> (r: Vec<String>)
    ensures
        views(r@) == lines(s@),
{
    let p = split_on(s, '\n');
    let ghost ps = pieces(s@, '\n');
    proof {
        lemma_pieces_len(s@, '\n');
        assert(p@.len() == views(p@).len());
    }
    let n: usize = p.len() - 1;
    let mut r: Vec<String> = Vec::new();
    let mut i: usize = 0;
    while i < n
        invariant
            n == p@.len() - 1,
            views(p@) == ps,
            i <= n,
            views(r@) =~= Seq::new(i as nat, |k: int| without_cr(ps[k])),
        decreases n - i,
    {
        let ghost before = views(r@);
        assert(ps[i as int] == p@[i as int]@);
        let t = drop_cr(p[i].as_str());
        r.push(t);
        assert(views(r@) =~= before.push(t@));
        i = i + 1;
    }
    assert(ps.last() == p@[n as int]@);
    if !p[n].as_str().is_empty() {
        let ghost before = views(r@);
        r.push(p[n].clone());
        assert(views(r@) =~= before.push(ps.last()));
    }
    assert(views(r@) =~= lines(s@));
    r
}

/// `s` without white space at both ends.
pub fn trimmed(s: &str) -> (r: String)
    ensures
        r@ == trim(s@),
{
    let v = to_chars(s);
    let mut a: usize = 0;
    assert(v@.skip(0) =~= s@);
    while a < v.len() && space_test(v[a])
        invariant
            a <= v@.len(),
            trim_left(v@.skip(a as int)) == trim_left(s@),
        decreases v.len() - a,
    {
        assert(v@.skip(a as int)[0] == v@[a as int]);
        assert(v@.skip(a as int).skip(1) =~= v@.skip(a + 1));
        a = a + 1;
    }
    let ghost left = v@.skip(a as int);
    assert(trim_left(s@) == left) by {
        if a < v@.len() {
            assert(left[0] == v@[a as int]);
        }
    }
    let mut b: usize = v.len();
    assert(v@.subrange(a as int, b as int) =~= left);
    while b > a && space_test(v[b - 1])
        invariant
            a <= b <= v@.len(),
            trim_right(v@.subrange(a as int, b as int)) == trim_right(left),
        decreases b,
    {
        let ghost t = v@.subrange(a as int, b as int);
        assert(t.last() == v@[b - 1]);
        assert(t.drop_last() =~= v@.subrange(a as int, b - 1));
        b = b - 1;
    }
    assert(trim_right(left) == v@.subrange(a as int, b as int)) by {
        if b > a {
            assert(v@.subrange(a as int, b as int).last() == v@[b - 1]);
        }
    }
    text_of(&v, a, b)
}

/// `s` without carriage returns and line feeds at its end.
pub fn drop_line_end(s: &str) -> (r: String)
    ensures
        r@ == without_line_end(s@),
{
    let v = to_chars(s);
    let mut b: usize = v.len();
    assert(v@.take(b as int) =~= s@);
    while b > 0 && (v[b - 1] == '\r' || v[b - 1] == '\n')
        invariant
            b <= v@.len(),
            without_line_end(v@.take(b as int)) == without_line_end(s@),
        decreases b,
    {
        assert(v@.take(b as int).last() == v@[b - 1]);
        assert(v@.take(b as int).drop_last() =~= v@.take(b - 1));
        b = b - 1;
    }
    assert(without_line_end(s@) == v@.take(b as int)) by {
        if b > 0 {
            assert(v@.take(b as int).last() == v@[b - 1]);
        }
    }
    assert(v@.subrange(0, b as int) =~= v@.take(b as int));
    text_of(&v, 0, b)
}

} // verus!
