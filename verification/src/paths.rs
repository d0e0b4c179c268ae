//! File paths as texts, in the notation of Unix.
use crate::pieces::{find_last, last_place, lemma_last_place};
use crate::text::{text_of, to_chars};
use vstd::prelude::*;
use vstd::string::*;

verus! {

/// What `std::path::Path::parent` gives for a path: the path without its final component.
pub uninterp spec fn parent_path(path: Seq<char>) -> Option<Seq<char>>;

/// The path is a file name, alone, at the root, or behind a path that ends in a file name itself.
pub open spec fn is_plain(path: Seq<char>) -> bool {
    let slash = last_place(path, '/');
    names_file(path) && (slash <= 0 || names_file(path.take(slash)))
}

/// What stands before the file name of a plain path: nothing, the root, or a directory.
pub open spec fn dir_of(path: Seq<char>) -> Seq<char> {
    let slash = last_place(path, '/');
    if slash < 0 {
        Seq::empty()
    } else if slash == 0 {
        seq!['/']
    } else {
        path.take(slash)
    }
}

/// Calls `std::path::Path::parent`. The result depends on the path alone and is named
/// `parent_path`. Of a plain path it is what stands before the file name, and the root and the
/// empty path have none. How slashes in a row and dots that stand for a directory are dropped from
/// other paths is left to the name.
#[verifier::external_body]
pub(crate) fn parent_of(path: &str) -> (r: Option<String>)
    ensures
        match r {
            Some(t) => parent_path(path@) == Some(t@),
            None => parent_path(path@) is None,
        },
        is_plain(path@) ==> r is Some && r->0@ == dir_of(path@),
        path@.len() == 0 || path@ == seq!['/'] ==> r is None,
{
    match std::path::Path::new(path).parent() {
        Some(p) => Some(p.to_string_lossy().into_owned()),
        None => None,
    }
}

/// `path` begins at the root.
pub open spec fn is_absolute(path: Seq<char>) -> bool {
    path.len() > 0 && path[0] == '/'
}

/// `rest` seen from the directory `base`. A path that begins at the root stands for itself.
pub open spec fn join_path(base: Seq<char>, rest: Seq<char>) -> Seq<char> {
    if is_absolute(rest) {
        rest
    } else if base.len() > 0 && base.last() != '/' {
        base.push('/') + rest
    } else {
        base + rest
    }
}

/// Where the file name of a path begins: behind its last slash.
pub open spec fn name_start(path: Seq<char>) -> int {
    last_place(path, '/') + 1
}

/// The path ends in a file name: not in a slash, and not in a dot or two that stand for a directory.
pub open spec fn names_file(path: Seq<char>) -> bool {
    let name = path.skip(name_start(path));
    name.len() > 0 && name != seq!['.'] && name != seq!['.', '.']
}

/// Where the extension of the path begins, its dot included: at the last dot of the file name,
/// unless the name begins with it. A path without extension has it at its end.
pub open spec fn extension_start(path: Seq<char>) -> int {
    let dot = last_place(path, '.');
    if dot > name_start(path) {
        dot
    } else {
        path.len() as int
    }
}

/// The extension of the path, without the dot; empty where there is none.
pub open spec fn extension(path: Seq<char>) -> Seq<char> {
    if extension_start(path) < path.len() {
        path.skip(extension_start(path) + 1)
    } else {
        Seq::empty()
    }
}

/// The path with `ext` in place of its extension.
pub open spec fn with_extension(path: Seq<char>, ext: Seq<char>) -> Seq<char> {
    path.take(extension_start(path)).push('.') + ext
}

/// `rest` seen from the directory `base`.
pub fn joined_path(base: &str, rest: &str) -> (r: String)
    ensures
        r@ == join_path(base@, rest@),
{
    let b = to_chars(base);
    let s = to_chars(rest);
    if s.len() > 0 && s[0] == '/' {
        return rest.to_owned();
    }
    let mut r = base.to_owned();
    let n: usize = b.len();
    if n > 0 && b[n - 1] != '/' {
        r.push('/');
    }
    r.append(rest);
    r
}

/// Whether the path ends in a file name.
pub fn ends_in_name(path: &str) -> (r: bool)
    ensures
        r == names_file(path@),
{
    let v = to_chars(path);
    proof {
        lemma_last_place(v@, '/');
    }
    let n: usize = v.len();
    let start: usize = match find_last(&v, '/') {
        Some(i) => i + 1,
        None => 0,
    };
    let ghost name = path@.skip(start as int);
    let len: usize = n - start;
    if len == 0 {
        false
    } else if len == 1 {
        assert(name[0] == v@[start as int]);
        assert(name[0] == '.' ==> name =~= seq!['.']);
        v[start] != '.'
    } else if len == 2 {
        assert(name[0] == v@[start as int] && name[1] == v@[start + 1]);
        assert(name[0] == '.' && name[1] == '.' ==> name =~= seq!['.', '.']);
        v[start] != '.' || v[start + 1] != '.'
    } else {
        true
    }
}

/// Where the extension of the path begins.
fn find_extension(v: &Vec<char>) -> (r: usize)
    ensures
        r == extension_start(v@),
        r <= v@.len(),
{
    proof {
        lemma_last_place(v@, '/');
        lemma_last_place(v@, '.');
    }
    let n: usize = v.len();
    let start: usize = match find_last(v, '/') {
        Some(i) => i + 1,
        None => 0,
    };
    match find_last(v, '.') {
        Some(d) if d > start => d,
        _ => n,
    }
}

/// The path split before its extension: what stands before the dot, and the extension.
pub fn split_extension(path: &str) -> (r: (String, String))
    ensures
        r.0@ == path@.take(extension_start(path@)),
        r.1@ == extension(path@),
{
    let v = to_chars(path);
    let n: usize = v.len();
    let e = find_extension(&v);
    let stem = text_of(&v, 0, e);
    let ext = if e < n {
        text_of(&v, e + 1, n)
    } else {
        String::new()
    };
    assert(stem@ =~= path@.take(e as int));
    assert(ext@ =~= extension(path@));
    (stem, ext)
}

} // verus!
