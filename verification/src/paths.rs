//! Slash-separated path strings: joining and the final component, with the
//! meaning that `std::path` gives them on Unix.

use vstd::prelude::*;
use crate::text::{chars_of, concat, ends_with_char, starts_with_char, substring};

verus! {

/// `leaf` appended to `base` as `PathBuf::push` does: an absolute `leaf`
/// replaces `base`, and a separator is inserted when `base` is non-empty and
/// does not end in one.
pub open spec fn spec_join(base: Seq<char>, leaf: Seq<char>) -> Seq<char> {
    if leaf.len() > 0 && leaf[0] == '/' {
        leaf
    } else if base.len() == 0 {
        leaf
    } else if base.last() == '/' {
        base + leaf
    } else {
        base + seq!['/'] + leaf
    }
}

/// Index of the last '/' in `s`, or -1.
pub open spec fn last_slash(s: Seq<char>) -> int
    decreases s.len(),
{
    if s.len() == 0 {
        -1
    } else if s.last() == '/' {
        s.len() - 1
    } else {
        last_slash(s.drop_last())
    }
}

/// The final component of a path, as `Path::file_name`: trailing separators
/// and `.` components are ignored, and a path that ends in `..`, is empty,
/// or is only a root has none.
pub open spec fn spec_file_name(s: Seq<char>) -> Option<Seq<char>>
    decreases s.len(),
{
    if s.len() == 0 {
        None
    } else {
        let k = last_slash(s);
        let tail = s.subrange(k + 1, s.len() as int);
        if tail.len() == 0 || tail == seq!['.'] {
            if k < 0 {
                None
            } else {
                proof {
                    lemma_last_slash_bounds(s);
                }
                spec_file_name(s.subrange(0, k))
            }
        } else if tail == seq!['.', '.'] {
            None
        } else {
            Some(tail)
        }
    }
}

pub proof fn lemma_last_slash_bounds(s: Seq<char>)
    ensures
        -1 <= last_slash(s) < s.len(),
        last_slash(s) >= 0 ==> s[last_slash(s)] == '/',
        forall|j: int| last_slash(s) < j < s.len() ==> s[j] != '/',
    decreases s.len(),
{
    if s.len() > 0 && s.last() != '/' {
        lemma_last_slash_bounds(s.drop_last());
        assert forall|j: int| last_slash(s) < j < s.len() implies s[j] != '/' by {
            if j < s.len() - 1 {
                assert(s[j] == s.drop_last()[j]);
            }
        }
    }
}

/// The last separator of `s` is the one at `k` (or none, for `-1`) when no
/// separator follows `k`.
pub proof fn lemma_last_slash_unique(s: Seq<char>, k: int)
    requires
        -1 <= k < s.len(),
        k >= 0 ==> s[k] == '/',
        forall|j: int| k < j < s.len() ==> s[j] != '/',
    ensures
        last_slash(s) == k,
    decreases s.len(),
{
    if s.len() > 0 && s.last() != '/' {
        lemma_last_slash_unique(s.drop_last(), k);
    }
}

/// Joins `leaf` onto `base` (see `spec_join`).
pub fn join_path(base: &str, leaf: &str) -> (p: String)
    ensures
        p@ == spec_join(base@, leaf@),
{
    proof {
        reveal_strlit("/");
    }
    if starts_with_char(leaf, '/') {
        leaf.to_owned()
    } else if base.unicode_len() == 0 {
        leaf.to_owned()
    } else if ends_with_char(base, '/') {
        concat(base, leaf)
    } else {
        let mut p = concat(base, "/");
        p.append(leaf);
        p
    }
}

/// The final component of `path` (see `spec_file_name`).
pub fn file_name(path: &str) -> (name: Option<String>)
    ensures
        match name {
            Some(n) => spec_file_name(path@) == Some(n@),
            None => spec_file_name(path@) is None,
        },
{
    let chars = chars_of(path);
    let mut end: usize = chars.len();
    assert(path@.subrange(0, end as int) =~= path@);
    loop
        invariant
            chars@ == path@,
            end <= chars@.len(),
            spec_file_name(path@) == spec_file_name(path@.subrange(0, end as int)),
        decreases end,
    {
        let ghost s = path@.subrange(0, end as int);
        if end == 0 {
            return None;
        }
        // last separator before `end`
        let mut k: usize = end;
        let mut found = false;
        while k > 0 && !found
            invariant
                k <= end <= chars@.len(),
                chars@ == path@,
                found ==> k < end && chars@[k as int] == '/',
                forall|j: int| (if found { k + 1 } else { k as int }) <= j < end ==> chars@[j] != '/',
            decreases k + (if found { 0int } else { 1int }),
        {
            if chars[k - 1] == '/' {
                k = k - 1;
                found = true;
            } else {
                k = k - 1;
            }
        }
        let ghost kk: int = if found { k as int } else { -1 };
        proof {
            lemma_last_slash_unique(s, kk);
        }
        let start: usize = if found { k + 1 } else { 0 };
        let len = end - start;
        let ghost tail = path@.subrange(start as int, end as int);
        assert(s.subrange(kk + 1, s.len() as int) =~= tail);
        let is_dot = len == 1 && chars[start] == '.';
        let is_dot_dot = len == 2 && chars[start] == '.' && chars[start + 1] == '.';
        assert(is_dot == (tail == seq!['.'])) by {
            if tail == seq!['.'] {
                assert(tail[0] == chars@[start as int]);
            }
            if is_dot {
                assert(tail =~= seq!['.']);
            }
        }
        assert(is_dot_dot == (tail == seq!['.', '.'])) by {
            if tail == seq!['.', '.'] {
                assert(tail[0] == chars@[start as int]);
                assert(tail[1] == chars@[start + 1]);
            }
            if is_dot_dot {
                assert(tail =~= seq!['.', '.']);
            }
        }
        if is_dot {
            assert(tail =~= seq!['.']);
        }
        if len == 0 || is_dot {
            if !found {
                return None;
            }
            assert(s.subrange(0, kk) =~= path@.subrange(0, k as int));
            end = k;
        } else if is_dot_dot {
            return None;
        } else {
            return Some(substring(path, start, end));
        }
    }
}

/// The named components of a path, in order: the text between separators,
/// without empty and `.` components (a leading root is not among them).
pub open spec fn pieces(s: Seq<char>) -> Seq<Seq<char>>
    decreases s.len(),
{
    if s.len() == 0 {
        seq![]
    } else {
        let k = last_slash(s);
        let tail = s.subrange(k + 1, s.len() as int);
        let rest = if k < 0 {
            seq![]
        } else {
            proof {
                lemma_last_slash_bounds(s);
            }
            pieces(s.subrange(0, k))
        };
        if tail.len() == 0 || tail == seq!['.'] {
            rest
        } else {
            rest.push(tail)
        }
    }
}

pub open spec fn views(v: Seq<String>) -> Seq<Seq<char>> {
    v.map_values(|x: String| x@)
}

/// The named components of `path` (see `pieces`).
pub fn split_pieces(path: &str) -> (parts: Vec<String>)
    ensures
        views(parts@) == pieces(path@),
{
    let chars = chars_of(path);
    let mut end: usize = chars.len();
    let mut rev: Vec<String> = Vec::new();
    assert(path@.subrange(0, end as int) =~= path@);
    assert(pieces(path@) =~= pieces(path@.subrange(0, end as int)) + views(rev@).reverse());
    loop
        invariant
            chars@ == path@,
            end <= chars@.len(),
            pieces(path@) == pieces(path@.subrange(0, end as int)) + views(rev@).reverse(),
        ensures
            end == 0,
            pieces(path@) == pieces(path@.subrange(0, end as int)) + views(rev@).reverse(),
        decreases end,
    {
        let ghost s = path@.subrange(0, end as int);
        if end == 0 {
            assert(pieces(s) =~= Seq::<Seq<char>>::empty());
            break;
        }
        let mut k: usize = end;
        let mut found = false;
        while k > 0 && !found
            invariant
                k <= end <= chars@.len(),
                chars@ == path@,
                found ==> k < end && chars@[k as int] == '/',
                forall|j: int| (if found { k + 1 } else { k as int }) <= j < end ==> chars@[j] != '/',
            decreases k + (if found { 0int } else { 1int }),
        {
            if chars[k - 1] == '/' {
                k = k - 1;
                found = true;
            } else {
                k = k - 1;
            }
        }
        let ghost kk: int = if found { k as int } else { -1 };
        proof {
            lemma_last_slash_unique(s, kk);
        }
        let start: usize = if found { k + 1 } else { 0 };
        let len = end - start;
        let ghost tail = path@.subrange(start as int, end as int);
        assert(s.subrange(kk + 1, s.len() as int) =~= tail);
        let is_dot = len == 1 && chars[start] == '.';
        assert(is_dot == (tail == seq!['.'])) by {
            if tail == seq!['.'] {
                assert(tail[0] == chars@[start as int]);
            }
            if is_dot {
                assert(tail =~= seq!['.']);
            }
        }
        let ghost old_rev = views(rev@);
        let ghost rest: Seq<Seq<char>> = if found {
            pieces(path@.subrange(0, k as int))
        } else {
            seq![]
        };
        if found {
            assert(s.subrange(0, kk) =~= path@.subrange(0, k as int));
        }
        if !(len == 0 || is_dot) {
            let piece = substring(path, start, end);
            rev.push(piece);
            assert(views(rev@) =~= old_rev.push(tail));
            assert(pieces(s) == rest.push(tail));
            assert(rest.push(tail) + old_rev.reverse() =~= rest + old_rev.push(tail).reverse());
        } else {
            assert(views(rev@) =~= old_rev);
        }
        if !found {
            assert(path@.subrange(0, 0) =~= Seq::<char>::empty());
            assert(pieces(path@) =~= views(rev@).reverse());
            end = 0;
        } else {
            end = k;
        }
    }
    let mut parts: Vec<String> = Vec::new();
    let n = rev.len();
    let mut i: usize = 0;
    while i < n
        invariant
            n == rev@.len(),
            i <= n,
            parts@.len() == i,
            views(parts@) == views(rev@).reverse().subrange(0, i as int),
        decreases n - i,
    {
        let piece = rev[n - 1 - i].clone();
        let ghost before = parts@;
        parts.push(piece);
        proof {
            assert(views(rev@).reverse()[i as int] == views(rev@)[n - 1 - i]);
            assert(views(rev@)[n - 1 - i] == rev@[n - 1 - i]@);
            assert forall|j: int| 0 <= j < i implies views(parts@)[j] == views(before)[j] by {
                assert(parts@[j] == before[j]);
            }
        }
        i = i + 1;
        assert(views(parts@) =~= views(rev@).reverse().subrange(0, i as int));
    }
    assert(pieces(path@.subrange(0, end as int)) =~= Seq::<Seq<char>>::empty());
    assert(views(rev@).reverse().subrange(0, n as int) =~= views(rev@).reverse());
    assert(pieces(path@) =~= views(rev@).reverse());
    parts
}

/// A component that is a plain name: non-empty, without separators, and
/// neither `.` nor `..`.
pub open spec fn is_plain_name(leaf: Seq<char>) -> bool {
    &&& leaf.len() > 0
    &&& forall|i: int| 0 <= i < leaf.len() ==> leaf[i] != '/'
    &&& leaf != seq!['.']
    &&& leaf != seq!['.', '.']
}

/// Joining a plain name makes it the final component.
pub proof fn lemma_file_name_of_join(base: Seq<char>, leaf: Seq<char>)
    requires
        is_plain_name(leaf),
    ensures
        spec_file_name(spec_join(base, leaf)) == Some(leaf),
{
    let p = spec_join(base, leaf);
    let k = p.len() - leaf.len() - 1;
    assert(p.subrange(k + 1, p.len() as int) =~= leaf);
    if base.len() == 0 {
        assert(p == leaf);
        lemma_last_slash_unique(p, -1);
    } else if base.last() == '/' {
        assert(p[k] == base.last());
        lemma_last_slash_unique(p, k);
    } else {
        assert(p[k] == '/');
        lemma_last_slash_unique(p, k);
    }
}

} // verus!
