//! Lists of devices: which are kept, and in what order they are tried.
use crate::pieces::{contains_text, has_text};
use crate::text::{lower, same_text, to_chars, to_lower, views};
use vstd::prelude::*;
use vstd::seq_lib::*;
use vstd::string::*;

verus! {

// ---------------------------------------------------------------------------
// The order of texts
// ---------------------------------------------------------------------------

/// `a` comes before `b`: at the first place where they differ it has the smaller character, or it
/// ends there.
pub open spec fn text_before(a: Seq<char>, b: Seq<char>) -> bool
    decreases a.len(),
{
    if b.len() == 0 {
        false
    } else if a.len() == 0 {
        true
    } else if a[0] != b[0] {
        (a[0] as int) < (b[0] as int)
    } else {
        text_before(a.drop_first(), b.drop_first())
    }
}

/// No text of the list comes before one that stands behind it.
pub open spec fn descending(s: Seq<Seq<char>>) -> bool {
    forall|i: int, j: int| 0 <= i < j < s.len() ==> !text_before(#[trigger] s[i], #[trigger] s[j])
}

proof fn lemma_before_transitive(a: Seq<char>, b: Seq<char>, c: Seq<char>)
    requires
        text_before(a, b),
        text_before(b, c),
    ensures
        text_before(a, c),
    decreases a.len(),
{
    if a.len() > 0 && a[0] == b[0] && b[0] == c[0] {
        lemma_before_transitive(a.drop_first(), b.drop_first(), c.drop_first());
    }
}

/// Texts have one order: of two that differ, exactly one comes before the other.
pub proof fn law_order_is_total(a: Seq<char>, b: Seq<char>)
    ensures
        !(text_before(a, b) && text_before(b, a)),
        text_before(a, b) || text_before(b, a) || a == b,
    decreases a.len(),
{
    if a.len() > 0 && b.len() > 0 && a[0] == b[0] {
        law_order_is_total(a.drop_first(), b.drop_first());
        if a.drop_first() == b.drop_first() {
            assert(a =~= seq![a[0]] + a.drop_first());
            assert(b =~= seq![b[0]] + b.drop_first());
        }
    } else if a.len() == 0 && b.len() == 0 {
        assert(a =~= b);
    } else if a.len() > 0 && b.len() > 0 {
        lemma_chars_differ(a[0], b[0]);
    }
}

proof fn lemma_chars_differ(c: char, d: char)
    requires
        c != d,
    ensures
        c as int != d as int,
{
}

/// Whether `a` comes before `b`.
pub fn comes_before(a: &str, b: &str) -> (r: bool)
    ensures
        r == text_before(a@, b@),
{
    let x = to_chars(a);
    let y = to_chars(b);
    let mut i: usize = 0;
    assert(x@.skip(0) =~= x@);
    assert(y@.skip(0) =~= y@);
    while i < x.len() && i < y.len()
        invariant
            x@ == a@,
            y@ == b@,
            i <= x@.len(),
            i <= y@.len(),
            text_before(a@, b@) == text_before(x@.skip(i as int), y@.skip(i as int)),
        decreases x.len() - i,
    {
        proof {
            assert(x@.skip(i as int)[0] == x@[i as int]);
            assert(y@.skip(i as int)[0] == y@[i as int]);
            assert(x@.skip(i as int).drop_first() =~= x@.skip(i + 1));
            assert(y@.skip(i as int).drop_first() =~= y@.skip(i + 1));
        }
        if x[i] != y[i] {
            return x[i] < y[i];
        }
        i = i + 1;
    }
    i < y.len()
}

// ---------------------------------------------------------------------------
// Sorting
// ---------------------------------------------------------------------------

proof fn lemma_insert_multiset(s: Seq<Seq<char>>, p: int, x: Seq<char>)
    requires
        0 <= p <= s.len(),
    ensures
        s.insert(p, x).to_multiset() == s.to_multiset().insert(x),
{
    broadcast use group_to_multiset_ensures;

    let t = s.insert(p, x);
    assert(t.remove(p) =~= s);
    assert(t[p] == x);
    assert(t.contains(x));
    assert(t.to_multiset().count(x) > 0);
    assert(t.to_multiset() =~= s.to_multiset().insert(x));
}

proof fn lemma_insert_descending(s: Seq<Seq<char>>, p: int, x: Seq<char>)
    requires
        descending(s),
        0 <= p <= s.len(),
        forall|k: int| 0 <= k < p ==> !text_before(#[trigger] s[k], x),
        p < s.len() ==> text_before(s[p], x),
    ensures
        descending(s.insert(p, x)),
{
    let t = s.insert(p, x);
    assert forall|i: int, j: int| 0 <= i < j < t.len() implies !text_before(
        #[trigger] t[i],
        #[trigger] t[j],
    ) by {
        if j < p {
            assert(t[i] == s[i] && t[j] == s[j]);
        } else if j == p {
            assert(t[i] == s[i]);
        } else if i < p {
            assert(t[i] == s[i] && t[j] == s[j - 1]);
        } else if i == p {
            assert(t[j] == s[j - 1]);
            if text_before(x, s[j - 1]) {
                lemma_before_transitive(s[p], x, s[j - 1]);
                if j - 1 == p {
                    law_order_is_total(s[p], s[p]);
                }
            }
        } else {
            assert(t[i] == s[i - 1] && t[j] == s[j - 1]);
        }
    }
}

/// The texts in descending order.
pub fn sort_descending(list: Vec<String>) -> (r: Vec<String>)
    ensures
        descending(views(r@)),
        views(r@).to_multiset() == views(list@).to_multiset(),
{
    broadcast use group_to_multiset_ensures;

    let mut rest = list;
    let mut sorted: Vec<String> = Vec::new();
    let ghost all = views(list@);
    proof {
        assert(views(sorted@) =~= Seq::<Seq<char>>::empty());
        assert(views(rest@).to_multiset().add(views(sorted@).to_multiset()) =~= all.to_multiset());
    }
    while rest.len() > 0
        invariant
            descending(views(sorted@)),
            views(rest@).to_multiset().add(views(sorted@).to_multiset()) == all.to_multiset(),
        decreases rest@.len(),
    {
        let ghost before = views(rest@);
        let ghost done = views(sorted@);
        let x = rest.pop().unwrap();
        proof {
            assert(before =~= views(rest@).push(x@));
            views(rest@).to_multiset_ensures();
            assert(before.to_multiset() =~= views(rest@).to_multiset().insert(x@));
        }
        let n: usize = sorted.len();
        let mut p: usize = 0;
        while p < n && !comes_before(sorted[p].as_str(), x.as_str())
            invariant
                n == sorted@.len(),
                p <= n,
                views(sorted@) == done,
                forall|k: int| 0 <= k < p ==> !text_before(#[trigger] done[k], x@),
            decreases n - p,
        {
            assert(done[p as int] == sorted@[p as int]@);
            p = p + 1;
        }
        proof {
            if p < n {
                assert(done[p as int] == sorted@[p as int]@);
            }
            lemma_insert_descending(done, p as int, x@);
            lemma_insert_multiset(done, p as int, x@);
        }
        let ghost xv = x@;
        sorted.insert(p, x);
        proof {
            assert(views(sorted@) =~= done.insert(p as int, xv));
            assert(views(rest@).to_multiset().add(views(sorted@).to_multiset())
                =~= before.to_multiset().add(done.to_multiset()));
        }
    }
    proof {
        assert(views(rest@) =~= Seq::<Seq<char>>::empty());
        assert(views(sorted@).to_multiset() =~= all.to_multiset());
    }
    sorted
}

// ---------------------------------------------------------------------------
// Which devices
// ---------------------------------------------------------------------------

/// The texts of a list without those that stood in it before.
pub open spec fn distinct(s: Seq<Seq<char>>) -> Seq<Seq<char>>
    decreases s.len(),
{
    if s.len() == 0 {
        Seq::empty()
    } else {
        let before = distinct(s.drop_last());
        if before.contains(s.last()) {
            before
        } else {
            before.push(s.last())
        }
    }
}

/// The path of a device that may be one of ours.
pub open spec fn is_acm(path: Seq<char>) -> bool {
    contains_text(lower(path), "acm"@)
}

/// The paths that may be ours.
pub open spec fn acm_only(s: Seq<Seq<char>>) -> Seq<Seq<char>>
    decreases s.len(),
{
    if s.len() == 0 {
        Seq::empty()
    } else {
        let before = acm_only(s.drop_last());
        if is_acm(s.last()) {
            before.push(s.last())
        } else {
            before
        }
    }
}

/// The paths that are marked.
pub open spec fn marked_only(s: Seq<Seq<char>>, marks: Seq<bool>) -> Seq<Seq<char>>
    decreases s.len(),
{
    if s.len() == 0 {
        Seq::empty()
    } else {
        let before = marked_only(s.drop_last(), marks.drop_last());
        if marks.last() {
            before.push(s.last())
        } else {
            before
        }
    }
}

/// Whether a text stands in a list.
pub fn holds(list: &Vec<String>, s: &str) -> (r: bool)
    ensures
        r == views(list@).contains(s@),
{
    let mut i: usize = 0;
    while i < list.len()
        invariant
            i <= list@.len(),
            forall|k: int| 0 <= k < i ==> views(list@)[k] != s@,
        decreases list.len() - i,
    {
        if same_text(list[i].as_str(), s) {
            assert(views(list@)[i as int] == s@);
            return true;
        }
        i = i + 1;
    }
    false
}

/// The list without texts that stood in it before.
pub fn without_repeats(list: &Vec<String>) -> (r: Vec<String>)
    ensures
        views(r@) == distinct(views(list@)),
{
    let ghost all = views(list@);
    let mut r: Vec<String> = Vec::new();
    let n: usize = list.len();
    let mut i: usize = 0;
    assert(all.take(0) =~= Seq::<Seq<char>>::empty());
    assert(views(r@) =~= distinct(all.take(0)));
    while i < n
        invariant
            n == list@.len(),
            i <= n,
            all == views(list@),
            views(r@) == distinct(all.take(i as int)),
        decreases n - i,
    {
        proof {
            assert(all.take(i + 1).drop_last() =~= all.take(i as int));
            assert(all.take(i + 1).last() == list@[i as int]@);
        }
        let ghost before = views(r@);
        if !holds(&r, list[i].as_str()) {
            r.push(list[i].as_str().to_owned());
            assert(views(r@) =~= before.push(all[i as int]));
        }
        i = i + 1;
    }
    assert(all.take(i as int) =~= all);
    r
}

/// The devices among the resolved paths of serial lines.
pub fn acm_devices(resolved: &Vec<String>) -> (r: Vec<String>)
    ensures
        views(r@) == distinct(acm_only(views(resolved@))),
{
    let ghost all = views(resolved@);
    let mut kept: Vec<String> = Vec::new();
    let n: usize = resolved.len();
    let mut i: usize = 0;
    assert(all.take(0) =~= Seq::<Seq<char>>::empty());
    assert(views(kept@) =~= acm_only(all.take(0)));
    while i < n
        invariant
            n == resolved@.len(),
            i <= n,
            all == views(resolved@),
            views(kept@) == acm_only(all.take(i as int)),
        decreases n - i,
    {
        proof {
            assert(all.take(i + 1).drop_last() =~= all.take(i as int));
            assert(all.take(i + 1).last() == resolved@[i as int]@);
        }
        let ghost before = views(kept@);
        let low = to_lower(resolved[i].as_str());
        if has_text(low.as_str(), "acm") {
            kept.push(resolved[i].as_str().to_owned());
            assert(views(kept@) =~= before.push(all[i as int]));
        }
        i = i + 1;
    }
    assert(all.take(i as int) =~= all);
    without_repeats(&kept)
}

/// The devices that may be ours: those that the system lists by their names, or, only where it lists
/// none, those that were found otherwise.
pub open spec fn candidate_list(by_id: Seq<Seq<char>>, found: Seq<Seq<char>>) -> Seq<Seq<char>> {
    let listed = distinct(acm_only(by_id));
    if listed.len() > 0 {
        listed
    } else {
        distinct(found)
    }
}

/// The devices that may be ours.
pub fn candidates(by_id: &Vec<String>, found: &Vec<String>) -> (r: Vec<String>)
    ensures
        views(r@) == candidate_list(views(by_id@), views(found@)),
{
    let listed = acm_devices(by_id);
    if listed.len() > 0 {
        listed
    } else {
        without_repeats(found)
    }
}

/// The usable devices, in the order in which they are tried: the last of them first. `usable` tells
/// of each device whether it can be opened.
pub fn find_devices(list: &Vec<String>, usable: &Vec<bool>) -> (r: Vec<String>)
    requires
        list@.len() == usable@.len(),
    ensures
        descending(views(r@)),
        views(r@).to_multiset() == marked_only(views(list@), usable@).to_multiset(),
{
    let ghost all = views(list@);
    let mut kept: Vec<String> = Vec::new();
    let n: usize = list.len();
    let mut i: usize = 0;
    assert(all.take(0) =~= Seq::<Seq<char>>::empty());
    assert(views(kept@) =~= marked_only(all.take(0), usable@.take(0)));
    while i < n
        invariant
            n == list@.len(),
            n == usable@.len(),
            i <= n,
            all == views(list@),
            views(kept@) == marked_only(all.take(i as int), usable@.take(i as int)),
        decreases n - i,
    {
        proof {
            assert(all.take(i + 1).drop_last() =~= all.take(i as int));
            assert(all.take(i + 1).last() == list@[i as int]@);
            assert(usable@.take(i + 1).drop_last() =~= usable@.take(i as int));
            assert(usable@.take(i + 1).last() == usable@[i as int]);
        }
        let ghost before = views(kept@);
        if usable[i] {
            kept.push(list[i].as_str().to_owned());
            assert(views(kept@) =~= before.push(all[i as int]));
        }
        i = i + 1;
    }
    assert(all.take(i as int) =~= all);
    assert(usable@.take(i as int) =~= usable@);
    sort_descending(kept)
}

/// A list without repeats holds each text once, and none that was not there.
pub proof fn law_distinct(s: Seq<Seq<char>>)
    ensures
        distinct(s).no_duplicates(),
        forall|x: Seq<char>| distinct(s).contains(x) <==> s.contains(x),
    decreases s.len(),
{
    if s.len() > 0 {
        law_distinct(s.drop_last());
        let d = distinct(s.drop_last());
        assert forall|x: Seq<char>| distinct(s).contains(x) <==> s.contains(x) by {
            if s.contains(x) {
                let i = choose|i: int| 0 <= i < s.len() && s[i] == x;
                if i < s.len() - 1 {
                    assert(s.drop_last()[i] == x);
                    assert(s.drop_last().contains(x));
                    assert(d.contains(x));
                    let k = choose|k: int| 0 <= k < d.len() && d[k] == x;
                    assert(distinct(s)[k] == x);
                } else {
                    if !d.contains(x) {
                        assert(distinct(s).last() == x);
                    }
                }
            }
            if distinct(s).contains(x) {
                let k = choose|k: int| 0 <= k < distinct(s).len() && distinct(s)[k] == x;
                if k < d.len() {
                    assert(d[k] == x);
                    assert(s.drop_last().contains(x));
                    let i = choose|i: int| 0 <= i < s.drop_last().len() && s.drop_last()[i] == x;
                    assert(s[i] == x);
                } else {
                    assert(s[s.len() - 1] == x);
                }
            }
        }
    }
}

proof fn lemma_acm_only(s: Seq<Seq<char>>)
    ensures
        forall|x: Seq<char>| #[trigger] acm_only(s).contains(x) ==> s.contains(x) && is_acm(x),
    decreases s.len(),
{
    if s.len() > 0 {
        let t = s.drop_last();
        lemma_acm_only(t);
        assert forall|x: Seq<char>| #[trigger] acm_only(s).contains(x) implies s.contains(x)
            && is_acm(x) by {
            let k = choose|k: int| 0 <= k < acm_only(s).len() && acm_only(s)[k] == x;
            if k < acm_only(t).len() {
                assert(acm_only(t)[k] == x);
                assert(acm_only(t).contains(x));
                let i = choose|i: int| 0 <= i < t.len() && t[i] == x;
                assert(s[i] == x);
            } else {
                assert(s[s.len() - 1] == x);
            }
        }
    }
}

/// The text stands in the list, and is marked there.
pub open spec fn is_marked(s: Seq<Seq<char>>, marks: Seq<bool>, x: Seq<char>) -> bool {
    exists|k: int| 0 <= k < s.len() && #[trigger] s[k] == x && marks[k]
}

proof fn lemma_marked_only(s: Seq<Seq<char>>, marks: Seq<bool>)
    requires
        s.len() == marks.len(),
    ensures
        forall|x: Seq<char>| #[trigger] marked_only(s, marks).contains(x) ==> is_marked(s, marks, x),
        s.no_duplicates() ==> marked_only(s, marks).no_duplicates(),
    decreases s.len(),
{
    if s.len() > 0 {
        let t = s.drop_last();
        let f = marks.drop_last();
        lemma_marked_only(t, f);
        let before = marked_only(t, f);
        let all = marked_only(s, marks);
        assert forall|x: Seq<char>| #[trigger] all.contains(x) implies is_marked(s, marks, x) by {
            let k = choose|k: int| 0 <= k < all.len() && all[k] == x;
            if k < before.len() {
                assert(before[k] == x);
                assert(before.contains(x));
                let i = choose|i: int| 0 <= i < t.len() && #[trigger] t[i] == x && f[i];
                assert(s[i] == x && marks[i]);
            } else {
                assert(s[s.len() - 1] == x && marks[s.len() - 1]);
            }
        }
        if s.no_duplicates() {
            assert(t.no_duplicates());
            if marks.last() {
                assert forall|i: int, j: int|
                    0 <= i < all.len() && 0 <= j < all.len() && i != j implies all[i] != all[j] by {
                    let lo = if i < j {
                        i
                    } else {
                        j
                    };
                    let hi = if i < j {
                        j
                    } else {
                        i
                    };
                    if hi == before.len() {
                        assert(before.contains(before[lo]));
                        let m = choose|m: int|
                            0 <= m < t.len() && #[trigger] t[m] == before[lo] && f[m];
                        assert(s[m] != s[s.len() - 1]);
                    } else {
                        assert(before[lo] != before[hi]);
                    }
                }
            }
        }
    }
}

/// The devices that are tried stand in descending order, each of them once. Each can be used. Where
/// the system lists devices that may be ours, they are among those; only where it lists none are
/// they taken from those that were found otherwise.
pub proof fn law_found_devices(
    by_id: Seq<Seq<char>>,
    found: Seq<Seq<char>>,
    usable: Seq<bool>,
    r: Seq<Seq<char>>,
)
    requires
        usable.len() == candidate_list(by_id, found).len(),
        descending(r),
        r.to_multiset() == marked_only(candidate_list(by_id, found), usable).to_multiset(),
    ensures
        forall|i: int, j: int|
            0 <= i < j < r.len() ==> text_before(#[trigger] r[j], #[trigger] r[i]),
        forall|i: int|
            0 <= i < r.len() ==> is_marked(
                candidate_list(by_id, found),
                usable,
                #[trigger] r[i],
            ),
        acm_only(by_id).len() > 0 ==> forall|i: int|
            0 <= i < r.len() ==> by_id.contains(#[trigger] r[i]) && is_acm(r[i]),
        acm_only(by_id).len() == 0 ==> forall|i: int|
            0 <= i < r.len() ==> found.contains(#[trigger] r[i]),
{
    let listed = acm_only(by_id);
    let list = candidate_list(by_id, found);
    let kept = marked_only(list, usable);
    law_distinct(listed);
    law_distinct(found);
    lemma_acm_only(by_id);
    lemma_marked_only(list, usable);
    kept.lemma_multiset_has_no_duplicates();
    r.lemma_multiset_has_no_duplicates_conv();
    if listed.len() > 0 {
        assert(listed.contains(listed[0]));
        assert(distinct(listed).contains(listed[0]));
        assert(distinct(listed).len() > 0);
    } else {
        assert(distinct(listed).len() == 0);
    }
    assert forall|i: int| 0 <= i < r.len() implies kept.contains(#[trigger] r[i]) by {
        assert(r.contains(r[i]));
        r.to_multiset_ensures();
        kept.to_multiset_ensures();
        assert(r.to_multiset().count(r[i]) > 0);
    }
    assert forall|i: int| 0 <= i < r.len() implies list.contains(#[trigger] r[i]) by {
        assert(kept.contains(r[i]));
        assert(is_marked(list, usable, r[i]));
    }
    if listed.len() > 0 {
        assert forall|i: int| 0 <= i < r.len() implies by_id.contains(#[trigger] r[i]) && is_acm(
            r[i],
        ) by {
            assert(list.contains(r[i]));
            assert(distinct(listed).contains(r[i]));
            assert(listed.contains(r[i]));
        }
    }
    assert forall|i: int, j: int| 0 <= i < j < r.len() implies text_before(
        #[trigger] r[j],
        #[trigger] r[i],
    ) by {
        law_order_is_total(r[i], r[j]);
    }
}

/// The permission bits of a file allow someone to run it.
pub fn is_executable(mode: u32) -> (r: bool)
    ensures
        r == (mode & 0o111u32 != 0),
{
    mode & 0o111u32 != 0
}

} // verus!
