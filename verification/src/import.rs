//! Which files of the sync directory are imported, and when.

use vstd::prelude::*;
use crate::export::{cli_args, cli_args_spec, strings_view};
use crate::order::{key_compare, key_lt, lemma_key_transitive, lemma_key_trichotomy};
use crate::cli::{law_tmp_path_not_supported, supported_path, tmp_path_spec, ExportFormat};
use crate::path::{file_name, path_key, path_key_exec, same_path};
use crate::text::chars_of;

verus! {

/// Arguments for `vestige import`: `[--data-dir <dir>] import <file>`.
pub fn import_command_args(data_dir: Option<&str>, file: &str) -> (r: Vec<String>)
    ensures
        strings_view(r@) == cli_args_spec(
            match data_dir {
                Some(d) => Some(d@),
                None => None,
            },
            "import"@,
            file@,
        ),
{
    cli_args(data_dir, "import", file)
}

/// Another machine's export file: a supported export path (any format, no
/// dotfile) that is not our own export file (compared as paths).
pub open spec fn import_candidate(p: Seq<char>, own: Seq<char>) -> bool {
    &&& supported_path(p)
    &&& !same_path(p, own)
}

/// Whether `path` is another machine's export file.
pub fn is_import_candidate(path: &str, own_export_file: &str) -> (r: bool)
    ensures
        r == import_candidate(path@, own_export_file@),
{
    if !ExportFormat::is_supported_path(path) {
        return false;
    }
    let p = chars_of(path);
    let own = chars_of(own_export_file);
    let k1 = path_key_exec(p.as_slice());
    let k2 = path_key_exec(own.as_slice());
    key_compare(&k1, &k2) != 0
}

/// The candidates among `ps`, in order.
pub open spec fn candidates_of(ps: Seq<Seq<char>>, own: Seq<char>) -> Seq<Seq<char>>
    decreases ps.len(),
{
    if ps.len() == 0 {
        seq![]
    } else {
        let rest = candidates_of(ps.drop_last(), own);
        if import_candidate(ps.last(), own) {
            rest.push(ps.last())
        } else {
            rest
        }
    }
}

/// The paths of a directory listing that are other machines' export files,
/// in listing order.
pub fn import_candidates(paths: &Vec<String>, own_export_file: &str) -> (r: Vec<String>)
    ensures
        strings_view(r@) == candidates_of(strings_view(paths@), own_export_file@),
{
    let mut out: Vec<String> = Vec::new();
    let mut i: usize = 0;
    while i < paths.len()
        invariant
            i <= paths.len(),
            strings_view(out@) == candidates_of(strings_view(paths@).take(i as int), own_export_file@),
        decreases paths.len() - i,
    {
        let ghost pre = strings_view(paths@).take(i as int);
        assert(strings_view(paths@).take(i + 1).drop_last() =~= pre);
        assert(strings_view(paths@).take(i + 1).last() == paths@[i as int]@);
        if is_import_candidate(paths[i].as_str(), own_export_file) {
            out.push(paths[i].clone());
            assert(strings_view(out@) =~= candidates_of(pre, own_export_file@).push(paths@[i as int]@));
        }
        i = i + 1;
    }
    assert(strings_view(paths@).take(paths.len() as int) =~= strings_view(paths@));
    out
}

// ---------------------------------------------------------------------------
// Polling: which files changed since they were last imported
// ---------------------------------------------------------------------------

/// The modification time recorded for the path with components `k`: the entry
/// of the first matching key at or after `i`.
pub open spec fn lookup_from(keys: Seq<Seq<Seq<u32>>>, times: Seq<i128>, k: Seq<Seq<u32>>, i: int) -> Option<
    i128,
>
    decreases keys.len() - i,
{
    if i < 0 || i >= keys.len() {
        None
    } else if keys[i] == k {
        Some(times[i])
    } else {
        lookup_from(keys, times, k, i + 1)
    }
}

/// Modification times of the files imported so far, keyed by their path
/// components (so two spellings of one path share an entry).
pub struct MtimeTracker {
    keys: Vec<Vec<Vec<u32>>>,
    times: Vec<i128>,
}

/// Whether a file whose known time is `known` needs importing at time `mtime`:
/// it was never seen, or it changed later than last seen.
pub open spec fn needs_import(known: Option<i128>, mtime: i128) -> bool {
    match known {
        None => true,
        Some(t) => mtime > t,
    }
}

proof fn lemma_lookup_same_times(
    keys: Seq<Seq<Seq<u32>>>,
    times: Seq<i128>,
    times2: Seq<i128>,
    k: Seq<Seq<u32>>,
    i: int,
)
    requires
        0 <= i,
        forall|m: int| i <= m < keys.len() ==> times[m] == times2[m],
    ensures
        lookup_from(keys, times, k, i) == lookup_from(keys, times2, k, i),
    decreases keys.len() - i,
{
    if i < keys.len() {
        lemma_lookup_same_times(keys, times, times2, k, i + 1);
    }
}

proof fn lemma_lookup_update(
    keys: Seq<Seq<Seq<u32>>>,
    times: Seq<i128>,
    j: int,
    t: i128,
    k: Seq<Seq<u32>>,
    i: int,
)
    requires
        keys.len() == times.len(),
        0 <= i <= j < keys.len(),
        forall|m: int| i <= m < j ==> keys[m] != keys[j],
    ensures
        lookup_from(keys, times.update(j, t), k, i) == if k == keys[j] {
            Some(t)
        } else {
            lookup_from(keys, times, k, i)
        },
    decreases j - i,
{
    if i < j {
        if keys[i] != k {
            lemma_lookup_update(keys, times, j, t, k, i + 1);
        }
    } else {
        if keys[j] != k {
            lemma_lookup_same_times(keys, times.update(j, t), times, k, j + 1);
        }
    }
}

proof fn lemma_lookup_push(
    keys: Seq<Seq<Seq<u32>>>,
    times: Seq<i128>,
    nk: Seq<Seq<u32>>,
    t: i128,
    k: Seq<Seq<u32>>,
    i: int,
)
    requires
        keys.len() == times.len(),
        0 <= i <= keys.len(),
        forall|m: int| i <= m < keys.len() ==> keys[m] != nk,
    ensures
        lookup_from(keys.push(nk), times.push(t), k, i) == if k == nk {
            Some(t)
        } else {
            lookup_from(keys, times, k, i)
        },
    decreases keys.len() - i,
{
    let ks = keys.push(nk);
    let ts = times.push(t);
    if i < keys.len() {
        assert(ks[i] == keys[i]);
        assert(ts[i] == times[i]);
        if keys[i] != k {
            lemma_lookup_push(keys, times, nk, t, k, i + 1);
        }
    } else {
        assert(ks[i] == nk);
        assert(ts[i] == t);
        if nk != k {
            assert(lookup_from(ks, ts, k, i + 1) is None);
        }
    }
}

/// `after` and `r` are what observing `path` at time `mtime` on `before`
/// gives: `r` says whether the file needs importing, and only then is `mtime`
/// recorded for it.
pub open spec fn observed(before: MtimeTracker, after: MtimeTracker, path: Seq<char>, mtime: i128, r: bool) -> bool {
    &&& r == needs_import(before.known(path_key(path)), mtime)
    &&& forall|k: Seq<Seq<u32>>| #[trigger]
        after.known(k) == if r && k == path_key(path) {
            Some(mtime)
        } else {
            before.known(k)
        }
}

impl MtimeTracker {
    /// The time recorded for the path whose components are `k`, if any.
    pub closed spec fn known(&self, k: Seq<Seq<u32>>) -> Option<i128> {
        lookup_from(self.keys.deep_view(), self.times@, k, 0)
    }

    pub closed spec fn wf(&self) -> bool {
        self.keys.len() == self.times.len()
    }

    /// A tracker that has seen nothing.
    pub fn new() -> (r: MtimeTracker)
        ensures
            r.wf(),
            forall|k: Seq<Seq<u32>>| #[trigger] r.known(k) is None,
    {
        MtimeTracker { keys: Vec::new(), times: Vec::new() }
    }

    /// A file was listed with modification time `mtime`: whether it needs
    /// importing; if so, `mtime` becomes its recorded time.
    pub fn observe(&mut self, path: &str, mtime: i128) -> (r: bool)
        requires
            old(self).wf(),
        ensures
            final(self).wf(),
            observed(*old(self), *final(self), path@, mtime, r),
    {
        let p = chars_of(path);
        let key = path_key_exec(p.as_slice());
        let ghost kv = key.deep_view();
        let ghost dk = self.keys.deep_view();
        let mut i: usize = 0;
        while i < self.keys.len()
            invariant
                i <= self.keys.len(),
                self.keys.len() == self.times.len(),
                self.keys@ == old(self).keys@,
                self.times@ == old(self).times@,
                dk == self.keys.deep_view(),
                dk.len() == self.keys.len(),
                kv == key.deep_view(),
                kv == path_key(p@),
                p@ == path@,
                forall|m: int| 0 <= m < i ==> dk[m] != kv,
                lookup_from(dk, self.times@, kv, i as int) == lookup_from(dk, self.times@, kv, 0),
            decreases self.keys.len() - i,
        {
            assert(dk[i as int] == self.keys@[i as int].deep_view());
            if key_compare(&self.keys[i], &key) == 0 {
                let old_t = self.times[i];
                assert(lookup_from(dk, self.times@, kv, i as int) == Some(old_t));
                if mtime > old_t {
                    let ghost old_times = self.times@;
                    self.times.set(i, mtime);
                    proof {
                        assert forall|k: Seq<Seq<u32>>| #[trigger]
                            lookup_from(dk, self.times@, k, 0) == if k == kv {
                                Some(mtime)
                            } else {
                                lookup_from(dk, old_times, k, 0)
                            } by {
                            lemma_lookup_update(dk, old_times, i as int, mtime, k, 0);
                        }
                    }
                    return true;
                }
                return false;
            }
            i = i + 1;
        }
        let ghost old_times = self.times@;
        self.keys.push(key);
        self.times.push(mtime);
        proof {
            assert(self.keys.deep_view() =~= dk.push(kv));
            assert forall|k: Seq<Seq<u32>>| #[trigger]
                lookup_from(self.keys.deep_view(), self.times@, k, 0) == if k == kv {
                    Some(mtime)
                } else {
                    lookup_from(dk, old_times, k, 0)
                } by {
                lemma_lookup_push(dk, old_times, kv, mtime, k, 0);
            }
        }
        true
    }
}

// ---------------------------------------------------------------------------
// Watching: which files a batch of change notifications names
// ---------------------------------------------------------------------------

/// The kind of a debounced change notification.
#[derive(Clone, Copy, Debug, PartialEq, Eq)]
pub enum WatchKind {
    /// The file changed.
    Any,
    /// The file keeps changing.
    AnyContinuous,
}

/// One debounced change notification.
pub struct WatchEvent {
    pub kind: WatchKind,
    pub path: String,
}

/// The paths of the `Any` notifications that are other machines' export
/// files, in notification order.
pub open spec fn watch_candidates(evs: Seq<WatchEvent>, own: Seq<char>) -> Seq<Seq<char>>
    decreases evs.len(),
{
    if evs.len() == 0 {
        seq![]
    } else {
        let rest = watch_candidates(evs.drop_last(), own);
        let e = evs.last();
        if e.kind is Any && import_candidate(e.path@, own) {
            rest.push(e.path@)
        } else {
            rest
        }
    }
}

/// `ps[j]` is the first path of `ps` with its components.
pub open spec fn first_of_its_path(ps: Seq<Seq<char>>, j: int) -> bool {
    forall|m: int| 0 <= m < j ==> path_key(#[trigger] ps[m]) != path_key(ps[j])
}

/// `p` is in `ps`, as the first path there with its components.
pub open spec fn first_listed(p: Seq<char>, ps: Seq<Seq<char>>) -> bool {
    exists|j: int| 0 <= j < ps.len() && ps[j] == p && #[trigger] first_of_its_path(ps, j)
}

/// Some path of `out` has the components of `p`.
pub open spec fn covers(out: Seq<Seq<char>>, p: Seq<char>) -> bool {
    exists|a: int| 0 <= a < out.len() && path_key(#[trigger] out[a]) == path_key(p)
}

/// `out` is `ps` sorted by path order with paths that are equal as paths kept
/// once, the first of them in `ps` being the one kept (a stable sort followed
/// by removal of repeated paths).
pub open spec fn sorted_distinct_of(out: Seq<Seq<char>>, ps: Seq<Seq<char>>) -> bool {
    &&& forall|a: int, b: int|
        0 <= a < b < out.len() ==> key_lt(#[trigger] path_key(out[a]), #[trigger] path_key(out[b]))
    &&& forall|a: int| 0 <= a < out.len() ==> #[trigger] first_listed(out[a], ps)
    &&& forall|j: int| 0 <= j < ps.len() ==> #[trigger] covers(out, ps[j])
}

/// Sort paths by path order and keep one of each (the first one listed).
pub fn sort_distinct_paths(ps: &Vec<String>) -> (r: Vec<String>)
    ensures
        sorted_distinct_of(strings_view(r@), strings_view(ps@)),
{
    let ghost pv = strings_view(ps@);
    let mut out: Vec<String> = Vec::new();
    let mut keys: Vec<Vec<Vec<u32>>> = Vec::new();
    let ghost mut src: Seq<int> = seq![];
    let mut i: usize = 0;
    while i < ps.len()
        invariant
            i <= ps.len(),
            pv == strings_view(ps@),
            pv.len() == ps.len(),
            keys.len() == out.len(),
            src.len() == out.len(),
            forall|a: int| 0 <= a < out.len() ==> #[trigger] keys.deep_view()[a] == path_key(out@[a]@),
            forall|a: int, b: int|
                0 <= a < b < out.len() ==> key_lt(#[trigger] keys.deep_view()[a], #[trigger] keys.deep_view()[b]),
            forall|a: int|
                0 <= a < out.len() ==> 0 <= #[trigger] src[a] < i && pv[src[a]] == out@[a]@ && forall|m: int|
                    0 <= m < src[a] ==> path_key(#[trigger] pv[m]) != keys.deep_view()[a],
            forall|j: int|
                0 <= j < i ==> exists|a: int|
                    0 <= a < out.len() && #[trigger] keys.deep_view()[a] == path_key(#[trigger] pv[j]),
        decreases ps.len() - i,
    {
        let ghost kd = keys.deep_view();
        let pc = chars_of(ps[i].as_str());
        let k = path_key_exec(pc.as_slice());
        let ghost kv = k.deep_view();
        assert(pv[i as int] == ps@[i as int]@);
        assert(kv == path_key(pv[i as int]));
        let mut pos: usize = 0;
        while pos < keys.len() && key_compare(&keys[pos], &k) == -1
            invariant
                pos <= keys.len(),
                kd == keys.deep_view(),
                kd.len() == keys.len(),
                kv == k.deep_view(),
                forall|a: int| 0 <= a < pos ==> key_lt(#[trigger] kd[a], kv),
            decreases keys.len() - pos,
        {
            assert(kd[pos as int] == keys@[pos as int].deep_view());
            pos = pos + 1;
        }
        let found = pos < keys.len() && key_compare(&keys[pos], &k) == 0;
        if found {
            assert(kd[pos as int] == keys@[pos as int].deep_view());
            assert(kd[pos as int] == path_key(pv[i as int]));
        } else {
            proof {
                if pos < keys.len() {
                    assert(kd[pos as int] == keys@[pos as int].deep_view());
                    lemma_key_trichotomy(kd[pos as int], kv);
                }
                assert forall|a: int| 0 <= a < kd.len() implies kd[a] != kv by {
                    lemma_key_trichotomy(kd[a], kv);
                    if a > pos {
                        lemma_key_transitive(kv, kd[pos as int], kd[a]);
                        lemma_key_trichotomy(kv, kd[a]);
                    }
                }
                assert forall|m: int| 0 <= m < i implies path_key(#[trigger] pv[m]) != kv by {
                    if path_key(pv[m]) == kv {
                        let a = choose|a: int| 0 <= a < out.len() && #[trigger] kd[a] == path_key(pv[m]);
                        assert(kd[a] == kv);
                    }
                }
            }
            let ghost old_src = src;
            let ghost old_out = out@;
            keys.insert(pos, k);
            out.insert(pos, ps[i].clone());
            proof {
                src = old_src.insert(pos as int, i as int);
                let nkd = keys.deep_view();
                assert(nkd =~= kd.insert(pos as int, kv));
                assert forall|a: int, b: int|
                    0 <= a < b < out.len() implies key_lt(#[trigger] nkd[a], #[trigger] nkd[b]) by {
                    if a < pos && b == pos {
                    } else if a < pos && b > pos {
                        assert(nkd[b] == kd[b - 1]);
                        assert(key_lt(kd[a], kd[b - 1]));
                    } else if a == pos {
                        assert(nkd[b] == kd[b - 1]);
                        lemma_key_trichotomy(kd[pos as int], kv);
                        if b - 1 > pos {
                            lemma_key_transitive(kv, kd[pos as int], kd[b - 1]);
                        }
                    } else if a > pos {
                        assert(nkd[a] == kd[a - 1]);
                        assert(nkd[b] == kd[b - 1]);
                    } else {
                        assert(nkd[a] == kd[a]);
                        assert(nkd[b] == kd[b]);
                    }
                }
                assert forall|j: int| 0 <= j < i + 1 implies exists|a: int|
                    0 <= a < out.len() && #[trigger] nkd[a] == path_key(#[trigger] pv[j]) by {
                    if j == i {
                        assert(nkd[pos as int] == path_key(pv[j]));
                    } else {
                        let a = choose|a: int| 0 <= a < old_out.len() && #[trigger] kd[a] == path_key(pv[j]);
                        if a < pos {
                            assert(nkd[a] == kd[a]);
                        } else {
                            assert(nkd[a + 1] == kd[a]);
                        }
                    }
                }
                assert forall|a: int| 0 <= a < out.len() implies #[trigger] nkd[a] == path_key(out@[a]@) by {
                    if a < pos {
                        assert(out@[a] == old_out[a]);
                    } else if a > pos {
                        assert(out@[a] == old_out[a - 1]);
                    }
                }
                assert forall|a: int| 0 <= a < out.len() implies 0 <= #[trigger] src[a] < i + 1 && pv[src[a]]
                    == out@[a]@ && forall|m: int|
                    0 <= m < src[a] ==> path_key(#[trigger] pv[m]) != nkd[a] by {
                    if a < pos {
                        assert(out@[a] == old_out[a]);
                        assert(src[a] == old_src[a]);
                    } else if a > pos {
                        assert(out@[a] == old_out[a - 1]);
                        assert(src[a] == old_src[a - 1]);
                    }
                }
            }
        }
        i = i + 1;
    }
    proof {
        let ov = strings_view(out@);
        let kd = keys.deep_view();
        assert forall|a: int| 0 <= a < ov.len() implies path_key(#[trigger] ov[a]) == kd[a] by {}
        assert forall|a: int, b: int|
            0 <= a < b < ov.len() implies key_lt(#[trigger] path_key(ov[a]), #[trigger] path_key(ov[b])) by {
            assert(path_key(ov[a]) == kd[a]);
            assert(path_key(ov[b]) == kd[b]);
        }
        assert forall|a: int| 0 <= a < ov.len() implies #[trigger] first_listed(ov[a], pv) by {
            assert(pv[src[a]] == ov[a]);
            assert(path_key(ov[a]) == kd[a]);
            assert(first_of_its_path(pv, src[a]));
        }
        assert forall|j: int| 0 <= j < pv.len() implies #[trigger] covers(ov, pv[j]) by {
            let a = choose|a: int| 0 <= a < out.len() && #[trigger] kd[a] == path_key(pv[j]);
            assert(path_key(ov[a]) == kd[a]);
        }
    }
    out
}

/// The files a batch of change notifications asks to import: the paths of
/// `Any` notifications that are other machines' export files, sorted by path
/// order, each path once.
pub fn select_watch_imports(events: &Vec<WatchEvent>, own_export_file: &str) -> (r: Vec<String>)
    ensures
        sorted_distinct_of(strings_view(r@), watch_candidates(events@, own_export_file@)),
{
    let mut cands: Vec<String> = Vec::new();
    let mut i: usize = 0;
    while i < events.len()
        invariant
            i <= events.len(),
            strings_view(cands@) == watch_candidates(events@.take(i as int), own_export_file@),
        decreases events.len() - i,
    {
        let ghost pre = events@.take(i as int);
        assert(events@.take(i + 1).drop_last() =~= pre);
        assert(events@.take(i + 1).last() == events@[i as int]);
        let e = &events[i];
        let is_any = match e.kind {
            WatchKind::Any => true,
            WatchKind::AnyContinuous => false,
        };
        if is_any && is_import_candidate(e.path.as_str(), own_export_file) {
            cands.push(e.path.clone());
            assert(strings_view(cands@) =~= watch_candidates(pre, own_export_file@).push(e.path@));
        }
        i = i + 1;
    }
    assert(events@.take(events.len() as int) =~= events@);
    sort_distinct_paths(&cands)
}

// ---------------------------------------------------------------------------
// Laws
// ---------------------------------------------------------------------------

/// The temporary file an export writes is never imported, by this machine or
/// another: it is a dotfile.
pub proof fn law_export_tmp_never_imported(export_file: Seq<char>, own: Seq<char>)
    requires
        file_name(export_file) is Some,
    ensures
        !import_candidate(tmp_path_spec(export_file), own),
{
    law_tmp_path_not_supported(export_file);
}

/// A file once imported is not imported again until its modification time
/// grows past the time it was imported at.
pub proof fn law_no_reimport_without_change(
    t0: MtimeTracker,
    t1: MtimeTracker,
    t2: MtimeTracker,
    path: Seq<char>,
    m1: i128,
    m2: i128,
    r1: bool,
    r2: bool,
)
    requires
        observed(t0, t1, path, m1, r1),
        observed(t1, t2, path, m2, r2),
        m2 <= m1,
    ensures
        !r2,
{
    let k = path_key(path);
    assert(t1.known(k) == if r1 && k == path_key(path) {
        Some(m1)
    } else {
        t0.known(k)
    });
}

/// A file never seen before is always imported.
pub proof fn law_first_sighting_imported(
    t0: MtimeTracker,
    t1: MtimeTracker,
    path: Seq<char>,
    m: i128,
    r: bool,
)
    requires
        observed(t0, t1, path, m, r),
        t0.known(path_key(path)) is None,
    ensures
        r,
        t1.known(path_key(path)) == Some(m),
{
    assert(t1.known(path_key(path)) == if r && path_key(path) == path_key(path) {
        Some(m)
    } else {
        t0.known(path_key(path))
    });
}

/// A batch of notifications imports each file at most once, even when the
/// batch names it several times or under several spellings.
pub proof fn law_batch_imports_each_path_once(out: Seq<Seq<char>>, ps: Seq<Seq<char>>)
    requires
        sorted_distinct_of(out, ps),
    ensures
        forall|a: int, b: int| 0 <= a < b < out.len() ==> !same_path(out[a], out[b]),
{
    assert forall|a: int, b: int| 0 <= a < b < out.len() implies !same_path(out[a], out[b]) by {
        assert(key_lt(path_key(out[a]), path_key(out[b])));
        lemma_key_trichotomy(path_key(out[a]), path_key(out[b]));
    }
}

} // verus!
