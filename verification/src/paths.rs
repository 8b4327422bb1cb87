//! File-system paths, held as text and taken apart with std's `Path`.
use vstd::prelude::*;
use crate::strings::{chars_of, slice_of, string_of};

verus! {

/// What `Path::parent` returns for a path.
pub uninterp spec fn path_parent(p: Seq<char>) -> Option<Seq<char>>;

/// What `Path::file_name` returns for a path.
pub uninterp spec fn path_file_name(p: Seq<char>) -> Option<Seq<char>>;

/// What `Path::join` returns for a base path and a relative part.
pub uninterp spec fn path_join(base: Seq<char>, rest: Seq<char>) -> Seq<char>;

/// Index of the last `.` in `n`, if any.
pub open spec fn last_dot(n: Seq<char>) -> Option<int>
    decreases n.len(),
{
    if n.len() == 0 {
        None
    } else if n.last() == '.' {
        Some(n.len() - 1)
    } else {
        last_dot(n.drop_last())
    }
}

/// A file name split into stem and extension as std documents it: no extension when there
/// is no `.`, or when the only `.` is the first character; otherwise the parts before and
/// after the last `.`.
pub open spec fn dot_split(n: Seq<char>) -> (Seq<char>, Option<Seq<char>>) {
    match last_dot(n) {
        None => (n, None),
        Some(k) => if k == 0 {
            (n, None)
        } else {
            (n.take(k), Some(n.skip(k + 1)))
        },
    }
}

/// The stem of the file name of `p` (`Path::file_stem`).
pub open spec fn path_file_stem(p: Seq<char>) -> Option<Seq<char>> {
    match path_file_name(p) {
        Some(n) => Some(dot_split(n).0),
        None => None,
    }
}

/// The extension of the file name of `p` (`Path::extension`).
pub open spec fn path_extension(p: Seq<char>) -> Option<Seq<char>> {
    match path_file_name(p) {
        Some(n) => dot_split(n).1,
        None => None,
    }
}

/// The parent of `p` (std's `Path::parent`), as text.
#[verifier::external_body]
pub(crate) fn parent(p: &str) -> (r: Option<String>)
    ensures
        match r {
            Some(s) => path_parent(p@) == Some(s@),
            None => path_parent(p@) is None,
        },
{
    std::path::Path::new(p).parent().map(|x| x.to_string_lossy().into_owned())
}

/// A path of one plain component: not empty, not `.` or `..`, and holding no separator
/// (`/`, nor `\` or `:`, which mark separators and prefixes elsewhere).
pub open spec fn is_plain_name(p: Seq<char>) -> bool {
    &&& p.len() > 0
    &&& p != seq!['.']
    &&& p != seq!['.', '.']
    &&& forall|i: int| 0 <= i < p.len() ==> #[trigger] p[i] != '/' && p[i] != '\\' && p[i] != ':'
}

/// The final component of `p` (std's `Path::file_name`), as text. A path of one plain
/// component is its own file name.
#[verifier::external_body]
pub(crate) fn file_name(p: &str) -> (r: Option<String>)
    ensures
        match r {
            Some(s) => path_file_name(p@) == Some(s@),
            None => path_file_name(p@) is None,
        },
        is_plain_name(p@) ==> (r is Some && r->Some_0@ == p@),
{
    std::path::Path::new(p).file_name().map(|x| x.to_string_lossy().into_owned())
}

/// The last `.` lies within the name.
proof fn lemma_last_dot(n: Seq<char>)
    ensures
        last_dot(n) matches Some(k) ==> 0 <= k < n.len() && n[k] == '.',
    decreases n.len(),
{
    if n.len() > 0 && n.last() != '.' {
        lemma_last_dot(n.drop_last());
    }
}

/// Text without a `.` moves no last `.`.
proof fn lemma_last_dot_append(pre: Seq<char>, t: Seq<char>)
    requires
        forall|i: int| 0 <= i < t.len() ==> #[trigger] t[i] != '.',
    ensures
        last_dot(pre + t) == last_dot(pre),
    decreases t.len(),
{
    if t.len() > 0 {
        assert((pre + t).drop_last() =~= pre + t.drop_last());
        assert((pre + t).last() == t.last());
        lemma_last_dot_append(pre, t.drop_last());
    } else {
        assert(pre + t =~= pre);
    }
}

/// A name `f.<e>`, with `e` free of `.`, `/`, `\` and `:`, is a plain name and splits into
/// the stem `f` and the extension `e`.
pub proof fn lemma_dotted_name(e: Seq<char>)
    requires
        forall|i: int| 0 <= i < e.len() ==> #[trigger] e[i] != '.' && e[i] != '/' && e[i] != '\\'
            && e[i] != ':',
    ensures
        is_plain_name(seq!['f', '.'] + e),
        dot_split(seq!['f', '.'] + e) == (seq!['f'], Some(e)),
{
    let pre = seq!['f', '.'];
    let n = pre + e;
    lemma_last_dot_append(pre, e);
    assert(pre.drop_last() =~= seq!['f']);
    assert(last_dot(pre) == Some(1int));
    assert(n.take(1) =~= seq!['f']);
    assert(n.skip(2) =~= e);
    assert forall|i: int| 0 <= i < n.len() implies #[trigger] n[i] != '/' && n[i] != '\\' && n[i]
        != ':' by {
        if i >= 2 {
            assert(n[i] == e[i - 2]);
        }
    }
    assert(n.len() >= 2);
    assert(n != seq!['.']) by {
        assert(n[0] == 'f');
    }
    assert(n != seq!['.', '.']) by {
        assert(n[0] == 'f');
    }
}

/// The index of the last `.` in `n` (see `last_dot`).
fn last_dot_exec(n: &Vec<char>) -> (r: Option<usize>)
    ensures
        match r {
            Some(k) => last_dot(n@) == Some(k as int),
            None => last_dot(n@) is None,
        },
{
    let mut i: usize = n.len();
    assert(n@.take(i as int) =~= n@);
    while i > 0
        invariant
            i <= n@.len(),
            last_dot(n@) == last_dot(n@.take(i as int)),
        decreases i,
    {
        let ghost t = n@.take(i as int);
        assert(t.drop_last() =~= n@.take(i - 1));
        if n[i - 1] == '.' {
            return Some(i - 1);
        }
        i = i - 1;
    }
    assert(n@.take(0) =~= Seq::<char>::empty());
    None
}

/// A file name split at its last `.` (see `dot_split`).
fn split_name(n: &str) -> (r: (String, Option<String>))
    ensures
        r.0@ == dot_split(n@).0,
        match r.1 {
            Some(e) => dot_split(n@).1 == Some(e@),
            None => dot_split(n@).1 is None,
        },
{
    let c = chars_of(n);
    proof {
        lemma_last_dot(c@);
    }
    match last_dot_exec(&c) {
        Some(k) => if k == 0 {
            (n.to_owned(), None)
        } else {
            let stem = slice_of(&c, 0, k);
            let ext = slice_of(&c, k + 1, c.len());
            assert(stem@ =~= c@.take(k as int));
            assert(ext@ =~= c@.skip(k + 1));
            (string_of(&stem), Some(string_of(&ext)))
        },
        None => (n.to_owned(), None),
    }
}

/// The file name of `p` without its extension (std's `Path::file_stem`): std documents it
/// as the part of the file name before the last `.`, or the whole name when there is no `.`
/// or the only `.` starts the name (a file name is never `..`).
pub(crate) fn file_stem(p: &str) -> (r: Option<String>)
    ensures
        match r {
            Some(s) => path_file_stem(p@) == Some(s@),
            None => path_file_stem(p@) is None,
        },
        is_plain_name(p@) ==> path_file_name(p@) == Some(p@),
{
    match file_name(p) {
        Some(n) => Some(split_name(n.as_str()).0),
        None => None,
    }
}

/// The extension of the file name of `p` (std's `Path::extension`): the part of the file
/// name after the last `.`, absent when there is no `.` or the only `.` starts the name.
pub(crate) fn extension(p: &str) -> (r: Option<String>)
    ensures
        match r {
            Some(s) => path_extension(p@) == Some(s@),
            None => path_extension(p@) is None,
        },
        is_plain_name(p@) ==> path_file_name(p@) == Some(p@),
{
    match file_name(p) {
        Some(n) => split_name(n.as_str()).1,
        None => None,
    }
}

/// `base` joined with `rest` (std's `Path::join`), as text.
#[verifier::external_body]
pub(crate) fn join(base: &str, rest: &str) -> (r: String)
    ensures
        r@ == path_join(base@, rest@),
{
    std::path::Path::new(base).join(rest).to_string_lossy().into_owned()
}

} // verus!
