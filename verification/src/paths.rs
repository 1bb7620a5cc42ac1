//! File paths as texts, with the meaning `std::path` gives them on Unix:
//! joining, the final component, its stem and its extension.
use vstd::prelude::*;
use crate::text::{chars_of, has_char, lemma_split_nonempty, push_char, push_chars, push_str, split_chars, split_on};

verus! {

/// `part` appended to `base` as `PathBuf::join` does on Unix: an absolute
/// `part` replaces `base`, an empty `base` yields `part`, and otherwise one
/// '/' separates them unless `base` already ends with one.
pub open spec fn path_join(base: Seq<char>, part: Seq<char>) -> Seq<char> {
    if part.len() > 0 && part[0] == '/' {
        part
    } else if base.len() == 0 {
        part
    } else if base.last() == '/' {
        base + part
    } else {
        base + seq!['/'] + part
    }
}

/// The named components of a path: the pieces between '/' that are neither
/// empty nor ".".
pub open spec fn named_parts(ps: Seq<Seq<char>>) -> Seq<Seq<char>>
    decreases ps.len(),
{
    if ps.len() == 0 {
        seq![]
    } else {
        let prev = named_parts(ps.drop_last());
        if ps.last().len() == 0 || ps.last() == seq!['.'] {
            prev
        } else {
            prev.push(ps.last())
        }
    }
}

/// The components of a path.
pub open spec fn components(p: Seq<char>) -> Seq<Seq<char>> {
    named_parts(split_on(p, '/'))
}

/// The final component of a path, unless there is none or it is "..".
pub open spec fn file_name(p: Seq<char>) -> Option<Seq<char>> {
    let cs = components(p);
    if cs.len() == 0 || cs.last() == seq!['.', '.'] {
        None
    } else {
        Some(cs.last())
    }
}

/// The final component of the parent directory, as
/// `path.parent().and_then(|p| p.file_name())` finds it.
pub open spec fn parent_name(p: Seq<char>) -> Option<Seq<char>> {
    let cs = components(p);
    if cs.len() < 2 || cs[cs.len() - 2] == seq!['.', '.'] {
        None
    } else {
        Some(cs[cs.len() - 2])
    }
}

/// The position of the last '.' in a name, if any.
pub open spec fn last_dot(n: Seq<char>) -> Option<int>
    decreases n.len(),
{
    if n.len() == 0 {
        None
    } else if n.last() == '.' {
        Some(n.len() - 1)
    } else {
        last_dot(n.drop_last())
    }
}

/// The extension of a file name: what follows its last '.', unless the
/// name has no '.' or its only leading part is empty (a hidden file).
pub open spec fn name_extension(n: Seq<char>) -> Option<Seq<char>> {
    match last_dot(n) {
        Some(i) => if i == 0 {
            None
        } else {
            Some(n.skip(i + 1))
        },
        None => None,
    }
}

/// The stem of a file name: what precedes its last '.', or the whole name.
pub open spec fn name_stem(n: Seq<char>) -> Seq<char> {
    match last_dot(n) {
        Some(i) => if i == 0 {
            n
        } else {
            n.take(i)
        },
        None => n,
    }
}

/// The extension of a path (`Path::extension`).
pub open spec fn path_extension(p: Seq<char>) -> Option<Seq<char>> {
    match file_name(p) {
        Some(n) => name_extension(n),
        None => None,
    }
}

/// The stem of a path (`Path::file_stem`).
pub open spec fn path_stem(p: Seq<char>) -> Option<Seq<char>> {
    match file_name(p) {
        Some(n) => Some(name_stem(n)),
        None => None,
    }
}

/// `part` appended to `base` as a path.
pub fn join_path(base: &str, part: &str) -> (r: String)
    ensures
        r@ == path_join(base@, part@),
{
    let pv = chars_of(part);
    if pv.len() > 0 && pv[0] == '/' {
        return crate::text::owned(part);
    }
    let bv = chars_of(base);
    let mut r = String::new();
    push_str(&mut r, base);
    if bv.len() > 0 && bv[bv.len() - 1] != '/' {
        push_char(&mut r, '/');
    }
    push_str(&mut r, part);
    r
}

/// The components of a path.
pub fn path_components(p: &str) -> (cs: Vec<Vec<char>>)
    ensures
        cs@.len() == components(p@).len(),
        forall|k: int| 0 <= k < cs@.len() ==> #[trigger] cs@[k]@ == components(p@)[k],
{
    let v = chars_of(p);
    let parts = split_chars(&v, '/');
    let ghost ps = split_on(p@, '/');
    let mut cs: Vec<Vec<char>> = Vec::new();
    let mut i: usize = 0;
    while i < parts.len()
        invariant
            i <= parts.len(),
            parts@.len() == ps.len(),
            forall|k: int| 0 <= k < parts@.len() ==> #[trigger] parts@[k]@ == ps[k],
            cs@.len() == named_parts(ps.take(i as int)).len(),
            forall|k: int| 0 <= k < cs@.len() ==> #[trigger] cs@[k]@ == named_parts(ps.take(i as int))[k],
        decreases parts.len() - i,
    {
        assert(ps.take(i + 1).drop_last() == ps.take(i as int));
        let piece = &parts[i];
        let is_dot = piece.len() == 1 && piece[0] == '.';
        proof {
            if is_dot {
                assert(piece@ =~= seq!['.']);
            }
        }
        if piece.len() > 0 && !is_dot {
            cs.push(crate::text::copy_chars(piece));
        }
        i = i + 1;
    }
    assert(ps.take(parts.len() as int) == ps);
    cs
}

fn is_dot_dot(v: &Vec<char>) -> (b: bool)
    ensures
        b == (v@ == seq!['.', '.']),
{
    let b = v.len() == 2 && v[0] == '.' && v[1] == '.';
    assert(b ==> v@ == seq!['.', '.']);
    b
}

/// The final component of a path (`Path::file_name`).
pub fn path_file_name(p: &str) -> (r: Option<Vec<char>>)
    ensures
        match r {
            Some(n) => file_name(p@) == Some(n@),
            None => file_name(p@) is None,
        },
{
    let cs = path_components(p);
    if cs.len() == 0 {
        return None;
    }
    let last = &cs[cs.len() - 1];
    if is_dot_dot(last) {
        None
    } else {
        Some(crate::text::copy_chars(last))
    }
}

/// The final component of the parent directory of a path.
pub fn path_parent_name(p: &str) -> (r: Option<Vec<char>>)
    ensures
        match r {
            Some(n) => parent_name(p@) == Some(n@),
            None => parent_name(p@) is None,
        },
{
    let cs = path_components(p);
    if cs.len() < 2 {
        return None;
    }
    let prev = &cs[cs.len() - 2];
    if is_dot_dot(prev) {
        None
    } else {
        Some(crate::text::copy_chars(prev))
    }
}

fn find_last_dot(n: &Vec<char>) -> (r: Option<usize>)
    ensures
        match r {
            Some(i) => last_dot(n@) == Some(i as int) && i < n@.len(),
            None => last_dot(n@) is None,
        },
{
    let mut k: usize = n.len();
    assert(n@.take(k as int) == n@);
    while k > 0
        invariant
            k <= n.len(),
            last_dot(n@) == last_dot(n@.take(k as int)),
        decreases k,
    {
        assert(n@.take(k as int).drop_last() == n@.take(k - 1));
        if n[k - 1] == '.' {
            return Some(k - 1);
        }
        k = k - 1;
    }
    None
}

fn slice_chars(v: &Vec<char>, a: usize, b: usize) -> (r: Vec<char>)
    requires
        a <= b <= v@.len(),
    ensures
        r@ == v@.subrange(a as int, b as int),
{
    let mut r: Vec<char> = Vec::new();
    let mut k = a;
    while k < b
        invariant
            a <= k <= b,
            b <= v@.len(),
            r@ == v@.subrange(a as int, k as int),
        decreases b - k,
    {
        r.push(v[k]);
        k = k + 1;
    }
    r
}

/// The extension of a path (`Path::extension`).
pub fn path_ext(p: &str) -> (r: Option<Vec<char>>)
    ensures
        match r {
            Some(e) => path_extension(p@) == Some(e@),
            None => path_extension(p@) is None,
        },
{
    match path_file_name(p) {
        Some(n) => match find_last_dot(&n) {
            Some(i) => if i == 0 {
                None
            } else {
                let len = n.len();
                assert(i < len);
                let e = slice_chars(&n, i + 1, len);
                assert(e@ == n@.skip(i + 1));
                Some(e)
            },
            None => None,
        },
        None => None,
    }
}

/// The stem of a path (`Path::file_stem`).
pub fn path_file_stem(p: &str) -> (r: Option<Vec<char>>)
    ensures
        match r {
            Some(s) => path_stem(p@) == Some(s@),
            None => path_stem(p@) is None,
        },
{
    match path_file_name(p) {
        Some(n) => match find_last_dot(&n) {
            Some(i) => if i == 0 {
                Some(n)
            } else {
                let s = slice_chars(&n, 0, i);
                assert(s@ == n@.take(i as int));
                Some(s)
            },
            None => Some(n),
        },
        None => None,
    }
}

/// What tells two paths apart as `Path` equality does on Unix: whether
/// the path starts at the root, whether it starts with a "." component, and
/// its other components (so repeated or trailing separators, and "."
/// anywhere but at the start, make no difference).
pub open spec fn path_key(p: Seq<char>) -> (bool, bool, Seq<Seq<char>>) {
    let rooted = p.len() > 0 && p[0] == '/';
    (rooted, !rooted && split_on(p, '/')[0] == seq!['.'], components(p))
}

fn chars_eq(a: &Vec<char>, b: &Vec<char>) -> (r: bool)
    ensures
        r == (a@ == b@),
{
    if a.len() != b.len() {
        return false;
    }
    let mut i: usize = 0;
    while i < a.len()
        invariant
            i <= a@.len(),
            a@.len() == b@.len(),
            forall|j: int| 0 <= j < i ==> a@[j] == b@[j],
        decreases a@.len() - i,
    {
        if a[i] != b[i] {
            return false;
        }
        i = i + 1;
    }
    assert(a@ =~= b@);
    true
}

fn path_key_of(p: &str) -> (k: (bool, bool, Vec<Vec<char>>))
    ensures
        k.0 == path_key(p@).0,
        k.1 == path_key(p@).1,
        k.2@.len() == components(p@).len(),
        forall|i: int| 0 <= i < k.2@.len() ==> #[trigger] k.2@[i]@ == components(p@)[i],
{
    let v = chars_of(p);
    let rooted = v.len() > 0 && v[0] == '/';
    let parts = split_chars(&v, '/');
    proof {
        lemma_split_nonempty(p@, '/');
    }
    let first_dot = parts[0].len() == 1 && parts[0][0] == '.';
    proof {
        if first_dot {
            assert(parts@[0]@ =~= seq!['.']);
        }
        if split_on(p@, '/')[0] == seq!['.'] {
            assert(parts@[0]@.len() == 1);
        }
    }
    (rooted, !rooted && first_dot, path_components(p))
}

/// Whether two texts name the same path (see `path_key`).
pub fn same_path(a: &str, b: &str) -> (r: bool)
    ensures
        r == (path_key(a@) == path_key(b@)),
{
    let ka = path_key_of(a);
    let kb = path_key_of(b);
    if ka.0 != kb.0 || ka.1 != kb.1 || ka.2.len() != kb.2.len() {
        return false;
    }
    let mut i: usize = 0;
    while i < ka.2.len()
        invariant
            i <= ka.2@.len(),
            ka.2@.len() == kb.2@.len(),
            ka.2@.len() == components(a@).len(),
            kb.2@.len() == components(b@).len(),
            forall|j: int| 0 <= j < ka.2@.len() ==> #[trigger] ka.2@[j]@ == components(a@)[j],
            forall|j: int| 0 <= j < kb.2@.len() ==> #[trigger] kb.2@[j]@ == components(b@)[j],
            forall|j: int| 0 <= j < i ==> components(a@)[j] == components(b@)[j],
        decreases ka.2@.len() - i,
    {
        if !chars_eq(&ka.2[i], &kb.2[i]) {
            assert(ka.2@[i as int]@ == components(a@)[i as int]);
            assert(kb.2@[i as int]@ == components(b@)[i as int]);
            return false;
        }
        assert(ka.2@[i as int]@ == components(a@)[i as int]);
        assert(kb.2@[i as int]@ == components(b@)[i as int]);
        i = i + 1;
    }
    assert(components(a@) =~= components(b@));
    true
}

} // verus!
