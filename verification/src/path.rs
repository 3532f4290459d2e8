//! Unix path text, read the way `std::path::Path` reads it: components are
//! separated by `/`, empty and `.` components inside the body are skipped, a
//! leading `/` is the root and a leading `.` component of a relative path is the
//! current directory.

use vstd::prelude::*;
use crate::text::{extend_chars, slice_to_vec};

verus! {

/// End of the last component of `p.take(n)` that is neither empty nor `.`,
/// never going below `lo`.
pub open spec fn trim_end(p: Seq<char>, n: int, lo: int) -> int
    decreases n,
{
    if n <= lo || n <= 0 || n > p.len() {
        n
    } else if p[n - 1] == '/' {
        trim_end(p, n - 1, lo)
    } else if p[n - 1] == '.' && (n == 1 || p[n - 2] == '/') {
        trim_end(p, n - 1, lo)
    } else {
        n
    }
}

/// Start of the component that ends at `e`: just after the last `/` before `e`.
pub open spec fn piece_start(p: Seq<char>, e: int) -> int
    decreases e,
{
    if e <= 0 || e > p.len() {
        0
    } else if p[e - 1] == '/' {
        e
    } else {
        piece_start(p, e - 1)
    }
}

/// Length of what comes before the body: the root `/`, or the leading `.`
/// of a relative path that starts with the current directory.
pub open spec fn body_start(p: Seq<char>) -> int {
    if p.len() > 0 && p[0] == '/' {
        1
    } else if p =~= seq!['.'] || (p.len() >= 2 && p[0] == '.' && p[1] == '/') {
        1
    } else {
        0
    }
}

pub open spec fn is_parent_dir(s: Seq<char>) -> bool {
    s =~= seq!['.', '.']
}

/// Where the final component of `p` lies (`Path::file_name`): `None` when the
/// path has no normal final component (empty, root only, current directory
/// only, or ending in `..`).
pub open spec fn file_name_range(p: Seq<char>) -> Option<(int, int)> {
    let e = trim_end(p, p.len() as int, 0);
    if e <= 0 {
        None
    } else {
        let s = piece_start(p, e);
        if is_parent_dir(p.subrange(s, e)) {
            None
        } else {
            Some((s, e))
        }
    }
}

/// The final component of `p` (`Path::file_name`).
pub open spec fn file_name(p: Seq<char>) -> Option<Seq<char>> {
    match file_name_range(p) {
        Some((s, e)) => Some(p.subrange(s, e)),
        None => None,
    }
}

/// `p` without its final component (`Path::parent`).
pub open spec fn parent(p: Seq<char>) -> Option<Seq<char>> {
    let lo = body_start(p);
    let e = trim_end(p, p.len() as int, lo);
    if e > lo {
        let s = piece_start(p, e);
        let rest = if s > lo { s - 1 } else { s };
        Some(p.take(trim_end(p, rest, lo)))
    } else if p.len() > 0 && p[0] == '/' {
        None
    } else if lo == 1 {
        Some(Seq::empty())
    } else {
        None
    }
}

/// `base` extended by `rest` (`Path::join` on Unix): an absolute `rest`
/// replaces `base`; otherwise a `/` is put between them when `base` is not
/// empty and does not already end in one.
pub open spec fn join(base: Seq<char>, rest: Seq<char>) -> Seq<char> {
    if rest.len() > 0 && rest[0] == '/' {
        rest
    } else if base.len() > 0 && base.last() != '/' {
        base + seq!['/'] + rest
    } else {
        base + rest
    }
}

// ---------------------------------------------------------------------------
// Executable counterparts
// ---------------------------------------------------------------------------

fn trim_end_exec(p: &[char], n: usize, lo: usize) -> (r: usize)
    requires
        n <= p.len(),
    ensures
        r == trim_end(p@, n as int, lo as int),
        r <= n,
        r > lo && r > 0 ==> p@[r - 1] != '/' && !(p@[r - 1] == '.' && (r == 1 || p@[r - 2] == '/')),
{
    let mut k = n;
    while k > lo && k > 0
        invariant
            k <= n <= p.len(),
            trim_end(p@, k as int, lo as int) == trim_end(p@, n as int, lo as int),
        decreases k,
    {
        if p[k - 1] == '/' {
            k = k - 1;
        } else if p[k - 1] == '.' && (k == 1 || p[k - 2] == '/') {
            k = k - 1;
        } else {
            return k;
        }
    }
    k
}

fn piece_start_exec(p: &[char], e: usize) -> (r: usize)
    requires
        e <= p.len(),
    ensures
        r == piece_start(p@, e as int),
        r <= e,
        forall|k: int| r <= k < e ==> p@[k] != '/',
        r > 0 ==> p@[r - 1] == '/',
{
    let mut k = e;
    while k > 0
        invariant
            k <= e <= p.len(),
            piece_start(p@, k as int) == piece_start(p@, e as int),
            forall|j: int| k <= j < e ==> p@[j] != '/',
        decreases k,
    {
        if p[k - 1] == '/' {
            return k;
        }
        k = k - 1;
    }
    k
}

fn body_start_exec(p: &[char]) -> (r: usize)
    ensures
        r == body_start(p@),
        r <= 1,
{
    if p.len() > 0 && p[0] == '/' {
        1
    } else if p.len() == 1 && p[0] == '.' {
        assert(p@ =~= seq!['.']);
        1
    } else if p.len() >= 2 && p[0] == '.' && p[1] == '/' {
        1
    } else {
        assert(!(p@ =~= seq!['.'])) by {
            if p@ =~= seq!['.'] {
                assert(p@[0] == '.');
            }
        }
        0
    }
}

/// Where the final component of `p` lies, as `(start, end)`.
pub fn file_name_range_exec(p: &[char]) -> (r: Option<(usize, usize)>)
    ensures
        match r {
            Some((s, e)) => file_name_range(p@) == Some((s as int, e as int)) && s < e <= p.len(),
            None => file_name_range(p@) is None,
        },
{
    let e = trim_end_exec(p, p.len(), 0);
    if e == 0 {
        return None;
    }
    let s = piece_start_exec(p, e);
    if e - s == 2 && p[s] == '.' && p[s + 1] == '.' {
        assert(is_parent_dir(p@.subrange(s as int, e as int)));
        return None;
    }
    assert(!is_parent_dir(p@.subrange(s as int, e as int))) by {
        if is_parent_dir(p@.subrange(s as int, e as int)) {
            assert(p@.subrange(s as int, e as int).len() == 2);
            assert(p@.subrange(s as int, e as int)[0] == p@[s as int]);
            assert(p@.subrange(s as int, e as int)[1] == p@[s + 1]);
        }
    }
    Some((s, e))
}

/// Length of the prefix of `p` that is its parent, if it has one.
pub fn parent_len(p: &[char]) -> (r: Option<usize>)
    ensures
        match r {
            Some(n) => n <= p.len() && parent(p@) == Some(p@.take(n as int)),
            None => parent(p@) is None,
        },
{
    let lo = body_start_exec(p);
    let e = trim_end_exec(p, p.len(), lo);
    if e > lo {
        let s = piece_start_exec(p, e);
        let rest = if s > lo { s - 1 } else { s };
        let n = trim_end_exec(p, rest, lo);
        Some(n)
    } else if p.len() > 0 && p[0] == '/' {
        None
    } else if lo == 1 {
        assert(p@.take(0) =~= Seq::<char>::empty());
        Some(0)
    } else {
        None
    }
}

/// `base` joined with `rest`.
pub fn join_exec(base: &[char], rest: &[char]) -> (out: Vec<char>)
    ensures
        out@ == join(base@, rest@),
{
    let mut out: Vec<char> = Vec::new();
    if rest.len() > 0 && rest[0] == '/' {
        extend_chars(&mut out, rest);
        assert(out@ =~= rest@);
        return out;
    }
    extend_chars(&mut out, base);
    if base.len() > 0 && base[base.len() - 1] != '/' {
        out.push('/');
    }
    extend_chars(&mut out, rest);
    assert(out@ =~= join(base@, rest@));
    out
}

// ---------------------------------------------------------------------------
// Components, and the equality and order that `Path` derives from them
// ---------------------------------------------------------------------------

/// The component list of a body piece: nothing for an empty or `.` piece.
pub open spec fn keep_piece(c: Seq<char>) -> Seq<Seq<char>> {
    if c.len() == 0 || c =~= seq!['.'] {
        seq![]
    } else {
        seq![c]
    }
}

/// The pieces of `p.take(n)` finished so far, and the piece being read.
pub open spec fn scan_pieces(p: Seq<char>, n: int) -> (Seq<Seq<char>>, Seq<char>)
    decreases n,
{
    if n <= 0 || n > p.len() {
        (seq![], seq![])
    } else {
        let (done, cur) = scan_pieces(p, n - 1);
        if p[n - 1] == '/' {
            (done + keep_piece(cur), seq![])
        } else {
            (done, cur.push(p[n - 1]))
        }
    }
}

/// The normal and `..` components of `p`, in order.
pub open spec fn pieces(p: Seq<char>) -> Seq<Seq<char>> {
    let (done, cur) = scan_pieces(p, p.len() as int);
    done + keep_piece(cur)
}

/// Sort key of one body component: `..` ranks before every normal name, and
/// names compare by their characters.
pub open spec fn piece_key(c: Seq<char>) -> Seq<u32> {
    if is_parent_dir(c) {
        seq![2u32]
    } else {
        seq![3u32] + c.map_values(|ch: char| ch as u32)
    }
}

/// The components of `p` as comparable keys: the root ranks first, then the
/// current directory, then `..`, then names.  Two paths are equal as `Path`s
/// exactly when their keys are equal, and ordered as their keys are ordered.
pub open spec fn path_key(p: Seq<char>) -> Seq<Seq<u32>> {
    let head: Seq<Seq<u32>> = if p.len() > 0 && p[0] == '/' {
        seq![seq![0u32]]
    } else if body_start(p) == 1 {
        seq![seq![1u32]]
    } else {
        seq![]
    };
    head + pieces(p).map_values(|c: Seq<char>| piece_key(c))
}

/// Whether two paths have the same components (`Path`'s `==`).
pub open spec fn same_path(a: Seq<char>, b: Seq<char>) -> bool {
    path_key(a) == path_key(b)
}

fn piece_key_exec(c: &[char]) -> (out: Vec<u32>)
    ensures
        out@ == piece_key(c@),
{
    let mut out: Vec<u32> = Vec::new();
    if c.len() == 2 && c[0] == '.' && c[1] == '.' {
        out.push(2u32);
        assert(is_parent_dir(c@)) by {
            assert(c@ =~= seq!['.', '.']);
        }
        return out;
    }
    assert(!is_parent_dir(c@)) by {
        if is_parent_dir(c@) {
            assert(c@.len() == 2 && c@[0] == '.' && c@[1] == '.');
        }
    }
    out.push(3u32);
    let mut i: usize = 0;
    while i < c.len()
        invariant
            i <= c.len(),
            out@ == seq![3u32] + c@.take(i as int).map_values(|ch: char| ch as u32),
        decreases c.len() - i,
    {
        out.push(c[i] as u32);
        assert(c@.take(i + 1).map_values(|ch: char| ch as u32) =~= c@.take(i as int).map_values(
            |ch: char| ch as u32,
        ).push(c@[i as int] as u32));
        i = i + 1;
    }
    assert(c@.take(c.len() as int) =~= c@);
    out
}

/// Adds the key of the finished piece `cur` to `keys`, if it counts.
fn flush_piece(keys: &mut Vec<Vec<u32>>, cur: &[char])
    ensures
        final(keys).deep_view() == old(keys).deep_view() + keep_piece(cur@).map_values(
            |c: Seq<char>| piece_key(c),
        ),
{
    if cur.len() == 0 || (cur.len() == 1 && cur[0] == '.') {
        assert(keep_piece(cur@) =~= seq![]) by {
            if cur.len() == 1 {
                assert(cur@ =~= seq!['.']);
            }
        }
        assert(keys.deep_view() =~= keys.deep_view() + keep_piece(cur@).map_values(
            |c: Seq<char>| piece_key(c),
        ));
    } else {
        assert(keep_piece(cur@) =~= seq![cur@]) by {
            if cur@ =~= seq!['.'] {
                assert(cur@.len() == 1 && cur@[0] == '.');
            }
        }
        let k = piece_key_exec(cur);
        assert(k.deep_view() =~= k@);
        let ghost dv = keys.deep_view();
        keys.push(k);
        assert(keys.deep_view() =~= dv.push(piece_key(cur@)));
        assert(keys.deep_view() =~= old(keys).deep_view() + keep_piece(cur@).map_values(
            |c: Seq<char>| piece_key(c),
        ));
    }
}

/// The comparable components of `p`.
pub fn path_key_exec(p: &[char]) -> (out: Vec<Vec<u32>>)
    ensures
        out.deep_view() == path_key(p@),
{
    let mut keys: Vec<Vec<u32>> = Vec::new();
    let ghost head: Seq<Seq<u32>>;
    if p.len() > 0 && p[0] == '/' {
        let k = vec![0u32];
        assert(k.deep_view() =~= seq![0u32]);
        keys.push(k);
        proof {
            head = seq![seq![0u32]];
        }
    } else if body_start_exec(p) == 1 {
        let k = vec![1u32];
        assert(k.deep_view() =~= seq![1u32]);
        keys.push(k);
        proof {
            head = seq![seq![1u32]];
        }
    } else {
        proof {
            head = seq![];
        }
    }
    assert(keys.deep_view() =~= head);
    let mut cur: Vec<char> = Vec::new();
    let mut i: usize = 0;
    while i < p.len()
        invariant
            i <= p.len(),
            keys.deep_view() == head + scan_pieces(p@, i as int).0.map_values(
                |c: Seq<char>| piece_key(c),
            ),
            cur@ == scan_pieces(p@, i as int).1,
        decreases p.len() - i,
    {
        let ghost before = scan_pieces(p@, i as int);
        if p[i] == '/' {
            flush_piece(&mut keys, cur.as_slice());
            cur = Vec::new();
            assert((before.0 + keep_piece(before.1)).map_values(|c: Seq<char>| piece_key(c))
                =~= before.0.map_values(|c: Seq<char>| piece_key(c)) + keep_piece(
                before.1,
            ).map_values(|c: Seq<char>| piece_key(c)));
        } else {
            cur.push(p[i]);
        }
        i = i + 1;
    }
    let ghost before = scan_pieces(p@, p.len() as int);
    flush_piece(&mut keys, cur.as_slice());
    assert((before.0 + keep_piece(before.1)).map_values(|c: Seq<char>| piece_key(c))
        =~= before.0.map_values(|c: Seq<char>| piece_key(c)) + keep_piece(before.1).map_values(
        |c: Seq<char>| piece_key(c),
    ));
    assert(keys.deep_view() =~= path_key(p@));
    keys
}

// ---------------------------------------------------------------------------
// Facts about file names
// ---------------------------------------------------------------------------

/// `t` can stand as the final component of a path: no `/` in it, and it is
/// neither `.` nor `..`.
pub open spec fn plain_name(t: Seq<char>) -> bool {
    &&& t.len() > 0
    &&& forall|i: int| 0 <= i < t.len() ==> t[i] != '/'
    &&& !(t =~= seq!['.'])
    &&& !is_parent_dir(t)
}

/// `x` can stand before a final component: empty or ending in `/`.
pub open spec fn dir_prefix(x: Seq<char>) -> bool {
    x.len() == 0 || x.last() == '/'
}

proof fn lemma_piece_start_in(x: Seq<char>, t: Seq<char>, e: int)
    requires
        dir_prefix(x),
        forall|i: int| 0 <= i < t.len() ==> t[i] != '/',
        x.len() <= e <= x.len() + t.len(),
    ensures
        piece_start(x + t, e) == x.len(),
    decreases e,
{
    let q = x + t;
    if e > x.len() {
        assert(q[e - 1] == t[e - 1 - x.len()]);
        lemma_piece_start_in(x, t, e - 1);
    } else if e > 0 {
        assert(q[e - 1] == x.last());
    }
}

/// A plain name after a directory prefix is the file name.
pub proof fn lemma_file_name_of_join(x: Seq<char>, t: Seq<char>)
    requires
        dir_prefix(x),
        plain_name(t),
    ensures
        file_name_range(x + t) == Some((x.len() as int, (x + t).len() as int)),
        file_name(x + t) == Some(t),
{
    let q = x + t;
    let n = q.len() as int;
    assert(q[n - 1] == t[t.len() - 1]);
    if t.len() == 1 {
        if t[0] == '.' {
            assert(t =~= seq!['.']);
        }
    } else {
        assert(q[n - 2] == t[t.len() - 2]);
    }
    assert(trim_end(q, n, 0) == n);
    lemma_piece_start_in(x, t, n);
    assert(q.subrange(x.len() as int, n) =~= t);
}

/// Joining a relative plain name puts a directory prefix before it.
pub proof fn lemma_join_plain(base: Seq<char>, t: Seq<char>)
    requires
        plain_name(t),
    ensures
        exists|x: Seq<char>| dir_prefix(x) && join(base, t) == x + t,
{
    if base.len() > 0 && base.last() != '/' {
        let x = base + seq!['/'];
        assert(join(base, t) =~= x + t);
        assert(dir_prefix(x));
    } else {
        assert(join(base, t) =~= base + t);
        assert(dir_prefix(base));
    }
}

proof fn lemma_trim_end_stops(p: Seq<char>, n: int)
    requires
        0 <= n <= p.len(),
    ensures
        0 <= trim_end(p, n, 0) <= n,
        trim_end(p, n, 0) > 0 ==> ({
            let r = trim_end(p, n, 0);
            p[r - 1] != '/' && !(p[r - 1] == '.' && (r == 1 || p[r - 2] == '/'))
        }),
    decreases n,
{
    if n > 0 {
        lemma_trim_end_stops(p, n - 1);
    }
}

proof fn lemma_piece_start_props(p: Seq<char>, e: int)
    requires
        0 <= e <= p.len(),
    ensures
        0 <= piece_start(p, e) <= e,
        piece_start(p, e) > 0 ==> p[piece_start(p, e) - 1] == '/',
        forall|k: int| piece_start(p, e) <= k < e ==> p[k] != '/',
    decreases e,
{
    if e > 0 && p[e - 1] != '/' {
        lemma_piece_start_props(p, e - 1);
    }
}

/// The file name, when there is one, is a plain name after a directory prefix.
pub proof fn lemma_file_name_plain(p: Seq<char>)
    requires
        file_name_range(p) is Some,
    ensures
        ({
            let (s, e) = file_name_range(p)->0;
            &&& 0 <= s < e <= p.len()
            &&& plain_name(p.subrange(s, e))
            &&& dir_prefix(p.take(s))
            &&& p =~= p.take(s) + p.subrange(s, e) + p.skip(e)
        }),
{
    let e = trim_end(p, p.len() as int, 0);
    lemma_trim_end_stops(p, p.len() as int);
    lemma_piece_start_props(p, e);
    let s = piece_start(p, e);
    let t = p.subrange(s, e);
    assert(s < e);
    assert forall|i: int| 0 <= i < t.len() implies t[i] != '/' by {
        assert(t[i] == p[s + i]);
    }
    if t =~= seq!['.'] {
        assert(t.len() == 1);
        assert(t[0] == p[s]);
        assert(s == e - 1);
        assert(p[e - 1] == '.');
    }
    if s > 0 {
        assert(p.take(s).last() == p[s - 1]);
    }
}

} // verus!
