//! Export formats, the paths built from them, `~` expansion and the
//! command-line arguments.

use vstd::prelude::*;
use crate::path::{
    dir_prefix, file_name, file_name_range, file_name_range_exec, is_parent_dir, join, join_exec,
    lemma_file_name_of_join, lemma_file_name_plain, lemma_join_plain, parent, parent_len, plain_name,
};
use crate::text::{
    chars_of, ends_with, extend_chars, has_prefix, has_suffix, slice_to_vec, starts_with, string_of,
};

verus! {

/// Every extension that some export format writes.
pub const SUPPORTED_EXTENSIONS: [&'static str; 4] = ["json", "jsonl", "json.gz", "jsonl.gz"];

/// Export format, controlling the file extension and the `--format` flag
/// passed to the vestige CLI.
#[derive(Clone, Copy, Debug)]
pub enum ExportFormat {
    Json,
    Jsonl,
    JsonGz,
    JsonlGz,
}

/// The extension of each format, without the leading dot.
pub open spec fn format_extension(f: ExportFormat) -> Seq<char> {
    match f {
        ExportFormat::Json => seq!['j', 's', 'o', 'n'],
        ExportFormat::Jsonl => seq!['j', 's', 'o', 'n', 'l'],
        ExportFormat::JsonGz => seq!['j', 's', 'o', 'n', '.', 'g', 'z'],
        ExportFormat::JsonlGz => seq!['j', 's', 'o', 'n', 'l', '.', 'g', 'z'],
    }
}

/// The extensions of all formats, in declaration order.
pub open spec fn all_extensions() -> Seq<Seq<char>> {
    seq![
        format_extension(ExportFormat::Json),
        format_extension(ExportFormat::Jsonl),
        format_extension(ExportFormat::JsonGz),
        format_extension(ExportFormat::JsonlGz),
    ]
}

/// A path is importable when its file name exists, is not a dotfile, and ends
/// in `.` followed by one of the supported extensions.
pub open spec fn supported_path(p: Seq<char>) -> bool {
    match file_name(p) {
        None => false,
        Some(n) => !(n.len() > 0 && n[0] == '.') && exists|i: int|
            0 <= i < all_extensions().len() && #[trigger] has_suffix(
                n,
                seq!['.'] + all_extensions()[i],
            ),
    }
}

/// `<dir>/<filename>.<extension>`.
pub open spec fn export_path_spec(f: ExportFormat, dir: Seq<char>, filename: Seq<char>) -> Seq<
    char,
> {
    join(dir, filename + seq!['.'] + format_extension(f))
}

/// The file next to `p` whose name is `.` followed by `p`'s file name.
pub open spec fn tmp_path_spec(p: Seq<char>) -> Seq<char> {
    let dir = match parent(p) {
        Some(d) => d,
        None => seq!['.'],
    };
    let name = match file_name(p) {
        Some(n) => n,
        None => Seq::empty(),
    };
    join(dir, seq!['.'] + name)
}

/// The supported extensions, as the constant lists them.
pub fn supported_extensions() -> (r: [&'static str; 4])
    ensures
        forall|i: int| 0 <= i < 4 ==> #[trigger] r@[i]@ == all_extensions()[i],
{
    let r = SUPPORTED_EXTENSIONS;
    proof {
        reveal_strlit("json");
        reveal_strlit("jsonl");
        reveal_strlit("json.gz");
        reveal_strlit("jsonl.gz");
        assert(r@[0]@ =~= all_extensions()[0]);
        assert(r@[1]@ =~= all_extensions()[1]);
        assert(r@[2]@ =~= all_extensions()[2]);
        assert(r@[3]@ =~= all_extensions()[3]);
    }
    r
}

impl ExportFormat {
    /// File extension for this format (without leading dot).
    pub fn extension(&self) -> (r: &'static str)
        ensures
            r@ == format_extension(*self),
    {
        proof {
            reveal_strlit("json");
            reveal_strlit("jsonl");
            reveal_strlit("json.gz");
            reveal_strlit("jsonl.gz");
        }
        match self {
            ExportFormat::Json => "json",
            ExportFormat::Jsonl => "jsonl",
            ExportFormat::JsonGz => "json.gz",
            ExportFormat::JsonlGz => "jsonl.gz",
        }
    }

    /// Value to pass to `vestige export --format`; the same as `extension()`.
    pub fn vestige_flag(&self) -> (r: &'static str)
        ensures
            r@ == format_extension(*self),
    {
        self.extension()
    }

    /// Whether a path matches any supported export format.  Used for import
    /// filtering, since other machines may use different formats.
    pub fn is_supported_path(path: &str) -> (r: bool)
        ensures
            r == supported_path(path@),
    {
        let p = chars_of(path);
        let (s, e) = match file_name_range_exec(p.as_slice()) {
            Some(range) => range,
            None => return false,
        };
        let name = slice_to_vec(p.as_slice(), s, e);
        if name[0] == '.' {
            return false;
        }
        let exts = supported_extensions();
        let mut i: usize = 0;
        while i < 4
            invariant
                i <= 4,
                p@ == path@,
                name@ == file_name(p@)->0,
                file_name(p@) is Some,
                name@.len() > 0,
                name@[0] != '.',
                forall|k: int| 0 <= k < 4 ==> #[trigger] exts@[k]@ == all_extensions()[k],
                forall|k: int| 0 <= k < i ==> !#[trigger] has_suffix(
                    name@,
                    seq!['.'] + all_extensions()[k],
                ),
            decreases 4 - i,
        {
            let mut dotted: Vec<char> = vec!['.'];
            let ext = chars_of(exts[i]);
            extend_chars(&mut dotted, ext.as_slice());
            assert(dotted@ =~= seq!['.'] + all_extensions()[i as int]);
            if ends_with(name.as_slice(), dotted.as_slice()) {
                assert(has_suffix(name@, seq!['.'] + all_extensions()[i as int]));
                assert(name@.len() > 0 && name@[0] != '.');
                assert(all_extensions().len() == 4);
                assert(supported_path(path@));
                return true;
            }
            i = i + 1;
        }
        assert(all_extensions().len() == 4);
        false
    }

    /// Build the export file path: `<sync_dir>/<filename>.<extension>`.
    pub fn export_path(&self, sync_dir: &str, filename: &str) -> (r: String)
        ensures
            r@ == export_path_spec(*self, sync_dir@, filename@),
    {
        let mut name = chars_of(filename);
        name.push('.');
        let ext = chars_of(self.extension());
        extend_chars(&mut name, ext.as_slice());
        let dir = chars_of(sync_dir);
        let joined = join_exec(dir.as_slice(), name.as_slice());
        assert(name@ =~= filename@ + seq!['.'] + format_extension(*self));
        string_of(joined.as_slice())
    }

    /// Build a temporary file path for export.  Uses a dotfile prefix so the
    /// file is rejected by import filtering, while preserving the real
    /// extension for vestige's format inference.
    pub fn tmp_path(export_file: &str) -> (r: String)
        ensures
            r@ == tmp_path_spec(export_file@),
    {
        let p = chars_of(export_file);
        let dir: Vec<char> = match parent_len(p.as_slice()) {
            Some(n) => slice_to_vec(p.as_slice(), 0, n),
            None => vec!['.'],
        };
        let mut name: Vec<char> = vec!['.'];
        match file_name_range_exec(p.as_slice()) {
            Some((s, e)) => {
                let n = slice_to_vec(p.as_slice(), s, e);
                extend_chars(&mut name, n.as_slice());
            },
            None => {},
        }
        proof {
            match parent(p@) {
                Some(d) => {
                    assert(dir@ =~= d);
                },
                None => {
                    assert(dir@ =~= seq!['.']);
                },
            }
            match file_name(p@) {
                Some(n) => {
                    assert(name@ =~= seq!['.'] + n);
                },
                None => {
                    assert(name@ =~= seq!['.'] + Seq::<char>::empty());
                },
            }
        }
        let joined = join_exec(dir.as_slice(), name.as_slice());
        string_of(joined.as_slice())
    }
}

// ---------------------------------------------------------------------------
// `~` expansion
// ---------------------------------------------------------------------------

/// Whether `p` is `~` or starts with `~/`, so that it names a path in the
/// home directory.
pub open spec fn tilde_path(p: Seq<char>) -> bool {
    p =~= seq!['~'] || has_prefix(p, seq!['~', '/'])
}

/// `p` with a leading `~` or `~/` replaced by the home directory `home`;
/// unchanged when it has no such prefix or when the home directory is unknown.
pub open spec fn expand_tilde_spec(p: Seq<char>, home: Option<Seq<char>>) -> Seq<char> {
    if tilde_path(p) {
        match home {
            Some(h) => if p =~= seq!['~'] {
                h
            } else {
                join(h, p.skip(2))
            },
            None => p,
        }
    } else {
        p
    }
}

/// `dirs::home_dir`, converted to text.  It reads the environment, so nothing
/// is promised of what comes back.
#[verifier::external_body]
fn home_dir() -> Option<String> {
    match dirs::home_dir() {
        Some(h) => Some(h.to_string_lossy().into_owned()),
        None => None,
    }
}

/// Expand a leading `~` or `~/` of `path` to the given home directory.
pub fn expand_tilde_with_home(path: &str, home: Option<&str>) -> (r: String)
    ensures
        r@ == expand_tilde_spec(path@, match home {
            Some(h) => Some(h@),
            None => None,
        }),
{
    let p = chars_of(path);
    let is_tilde = p.len() == 1 && p[0] == '~';
    let tilde_slash = starts_with(p.as_slice(), &['~', '/']);
    proof {
        assert(is_tilde == (p@ =~= seq!['~'])) by {
            if p@ =~= seq!['~'] {
                assert(p@[0] == '~');
            }
        }
    }
    if is_tilde || tilde_slash {
        match home {
            Some(h) => {
                if is_tilde {
                    return string_of(chars_of(h).as_slice());
                }
                let rest = slice_to_vec(p.as_slice(), 2, p.len());
                assert(rest@ =~= p@.skip(2));
                let hc = chars_of(h);
                let joined = join_exec(hc.as_slice(), rest.as_slice());
                return string_of(joined.as_slice());
            },
            None => {},
        }
    }
    string_of(p.as_slice())
}

/// Whether `path` is `~` or starts with `~/`.
pub fn is_tilde_path(path: &str) -> (r: bool)
    ensures
        r == tilde_path(path@),
{
    let p = chars_of(path);
    let is_tilde = p.len() == 1 && p[0] == '~';
    proof {
        assert(is_tilde == (p@ =~= seq!['~'])) by {
            if p@ =~= seq!['~'] {
                assert(p@[0] == '~');
            }
        }
    }
    is_tilde || starts_with(p.as_slice(), &['~', '/'])
}

/// Expand a leading `~` or `~/` to the user's home directory, as the
/// environment reports it at the time of the call.  The flag says that `path`
/// needed the home directory and it could not be determined, so `path` was
/// left as it is.
pub fn expand_tilde(path: &str) -> (r: (String, bool))
    ensures
        exists|home: Option<Seq<char>>|
            r.0@ == #[trigger] expand_tilde_spec(path@, home) && r.1 == (tilde_path(path@)
                && home is None),
{
    let home = home_dir();
    let r = match &home {
        Some(h) => expand_tilde_with_home(path, Some(h.as_str())),
        None => expand_tilde_with_home(path, None),
    };
    let missing = home.is_none() && is_tilde_path(path);
    proof {
        let hv: Option<Seq<char>> = match home {
            Some(h) => Some(h@),
            None => None,
        };
        assert(r@ == expand_tilde_spec(path@, hv));
    }
    (r, missing)
}

// ---------------------------------------------------------------------------
// Command-line arguments
// ---------------------------------------------------------------------------

/// Vestige MCP wrapper settings: the parsed command line.
pub struct Args {
    /// Directory where export files are written and watched.
    pub sync_dir: String,
    /// Output file stem (template); the extension is determined by `format`.
    pub filename: String,
    /// Export format.
    pub format: ExportFormat,
    /// Export interval in seconds.
    pub export_interval: u64,
    /// Poll the sync directory at this interval (seconds) instead of watching it.
    pub poll_interval: Option<u64>,
    /// Run a final export before shutting down.
    pub export_on_exit: bool,
    /// Path to the vestige database, forwarded as `--data-dir`.
    pub db_path: Option<String>,
    /// Import all other machines' export files before starting vestige-mcp.
    pub restore_on_start: bool,
    /// Path to the vestige-mcp binary (MCP server).
    pub vestige_bin: String,
    /// Path to the vestige CLI binary (used for export/import).
    pub vestige_cli: String,
    /// Arguments forwarded to vestige-mcp.
    pub vestige_args: Vec<String>,
}

/// `new` is `old` with `~` expanded against `home` in every path argument,
/// and every other argument unchanged.
pub open spec fn resolved_with(old: Args, new: Args, home: Option<Seq<char>>) -> bool {
    &&& new.sync_dir@ == expand_tilde_spec(old.sync_dir@, home)
    &&& new.vestige_bin@ == expand_tilde_spec(old.vestige_bin@, home)
    &&& new.vestige_cli@ == expand_tilde_spec(old.vestige_cli@, home)
    &&& match (old.db_path, new.db_path) {
        (Some(o), Some(n)) => n@ == expand_tilde_spec(o@, home),
        (None, None) => true,
        _ => false,
    }
    &&& new.filename@ == old.filename@
    &&& new.format == old.format
    &&& new.export_interval == old.export_interval
    &&& new.poll_interval == old.poll_interval
    &&& new.export_on_exit == old.export_on_exit
    &&& new.restore_on_start == old.restore_on_start
    &&& new.vestige_args@ == old.vestige_args@
}

/// How many of the path arguments name a path in the home directory.
pub open spec fn tilde_count(a: Args) -> nat {
    (if tilde_path(a.sync_dir@) { 1nat } else { 0nat }) + (match a.db_path {
        Some(d) => if tilde_path(d@) { 1nat } else { 0nat },
        None => 0nat,
    }) + (if tilde_path(a.vestige_bin@) { 1nat } else { 0nat }) + (if tilde_path(a.vestige_cli@) {
        1nat
    } else {
        0nat
    })
}

/// How many path arguments of `a` stay unexpanded for want of a home directory.
pub open spec fn unexpanded_count(a: Args, home: Option<Seq<char>>) -> nat {
    if home is None {
        tilde_count(a)
    } else {
        0
    }
}

impl Args {
    /// Expand `~` in all path arguments against the given home directory.
    /// Returns how many path arguments needed a home directory that is unknown
    /// (and so were left as they are).
    pub fn resolve_paths_with_home(&mut self, home: Option<&str>) -> (unexpanded: usize)
        ensures
            resolved_with(*old(self), *final(self), match home {
                Some(h) => Some(h@),
                None => None,
            }),
            unexpanded == unexpanded_count(*old(self), match home {
                Some(h) => Some(h@),
                None => None,
            }),
    {
        let mut count: usize = 0;
        if home.is_none() {
            if is_tilde_path(self.sync_dir.as_str()) {
                count = count + 1;
            }
            match &self.db_path {
                Some(d) => if is_tilde_path(d.as_str()) {
                    count = count + 1;
                },
                None => {},
            }
            if is_tilde_path(self.vestige_bin.as_str()) {
                count = count + 1;
            }
            if is_tilde_path(self.vestige_cli.as_str()) {
                count = count + 1;
            }
        }
        self.sync_dir = expand_tilde_with_home(self.sync_dir.as_str(), home);
        let db = match &self.db_path {
            Some(d) => Some(expand_tilde_with_home(d.as_str(), home)),
            None => None,
        };
        self.db_path = db;
        self.vestige_bin = expand_tilde_with_home(self.vestige_bin.as_str(), home);
        self.vestige_cli = expand_tilde_with_home(self.vestige_cli.as_str(), home);
        count
    }

    /// Expand `~` in all path arguments to the user's home directory.
    /// Returns how many path arguments needed a home directory that could not
    /// be determined (and so were left as they are).
    pub fn resolve_paths(&mut self) -> (unexpanded: usize)
        ensures
            exists|home: Option<Seq<char>>|
                #[trigger] resolved_with(*old(self), *final(self), home) && unexpanded
                    == unexpanded_count(*old(self), home),
    {
        let home = home_dir();
        let n = match &home {
            Some(h) => self.resolve_paths_with_home(Some(h.as_str())),
            None => self.resolve_paths_with_home(None),
        };
        proof {
            let hv: Option<Seq<char>> = match home {
                Some(h) => Some(h@),
                None => None,
            };
            assert(resolved_with(*old(self), *self, hv));
            assert(n == unexpanded_count(*old(self), hv));
        }
        n
    }
}

// ---------------------------------------------------------------------------
// Laws
// ---------------------------------------------------------------------------

/// Every export format's extension is one of the supported extensions, so a
/// file written in any format is recognised on import.
pub proof fn law_every_format_supported(f: ExportFormat)
    ensures
        exists|i: int| 0 <= i < all_extensions().len() && all_extensions()[i] == format_extension(f),
{
    let i: int = match f {
        ExportFormat::Json => 0,
        ExportFormat::Jsonl => 1,
        ExportFormat::JsonGz => 2,
        ExportFormat::JsonlGz => 3,
    };
    assert(all_extensions()[i] == format_extension(f));
}

/// An export file named after a plain file stem that is not a dotfile is a
/// supported path for every format: what one machine exports, the others
/// pick up.
pub proof fn law_export_path_supported(f: ExportFormat, dir: Seq<char>, stem: Seq<char>)
    requires
        stem.len() > 0,
        stem[0] != '.',
        forall|i: int| 0 <= i < stem.len() ==> stem[i] != '/',
    ensures
        file_name(export_path_spec(f, dir, stem)) == Some(stem + seq!['.'] + format_extension(f)),
        supported_path(export_path_spec(f, dir, stem)),
{
    let ext = format_extension(f);
    let t = stem + seq!['.'] + ext;
    assert forall|i: int| 0 <= i < t.len() implies t[i] != '/' by {
        if i < stem.len() {
            assert(t[i] == stem[i]);
        } else if i > stem.len() {
            assert(t[i] == ext[i - stem.len() - 1]);
        }
    }
    assert(t.last() == ext.last());
    assert(!(t =~= seq!['.'])) by {
        if t =~= seq!['.'] {
            assert(t.len() == 1);
        }
    }
    assert(!is_parent_dir(t)) by {
        if is_parent_dir(t) {
            assert(t[1] == '.');
        }
    }
    assert(plain_name(t));
    lemma_join_plain(dir, t);
    let x = choose|x: Seq<char>| dir_prefix(x) && join(dir, t) == x + t;
    lemma_file_name_of_join(x, t);
    law_every_format_supported(f);
    let i = choose|i: int| 0 <= i < all_extensions().len() && all_extensions()[i] == ext;
    assert(t.skip(t.len() - (ext.len() + 1)) =~= seq!['.'] + ext);
    assert(has_suffix(t, seq!['.'] + all_extensions()[i]));
    assert(t[0] == stem[0]);
}

/// The temporary export path of a file keeps its file name behind a leading
/// dot, so it has the same extension yet is never taken for an importable
/// export file.
pub proof fn law_tmp_path_not_supported(p: Seq<char>)
    requires
        file_name(p) is Some,
    ensures
        file_name(tmp_path_spec(p)) == Some(seq!['.'] + file_name(p)->0),
        !supported_path(tmp_path_spec(p)),
{
    lemma_file_name_plain(p);
    let (s, e) = file_name_range(p)->0;
    let n = p.subrange(s, e);
    let t = seq!['.'] + n;
    assert forall|i: int| 0 <= i < t.len() implies t[i] != '/' by {
        if i > 0 {
            assert(t[i] == n[i - 1]);
        }
    }
    assert(!(t =~= seq!['.'])) by {
        if t =~= seq!['.'] {
            assert(t.len() == 1);
        }
    }
    assert(!is_parent_dir(t)) by {
        if is_parent_dir(t) {
            assert(t[1] == n[0]);
            assert(n =~= seq!['.']);
        }
    }
    let dir = match parent(p) {
        Some(d) => d,
        None => seq!['.'],
    };
    lemma_join_plain(dir, t);
    let x = choose|x: Seq<char>| dir_prefix(x) && join(dir, t) == x + t;
    lemma_file_name_of_join(x, t);
}

/// Expanding `~` twice is expanding it once, when the home directory is an
/// absolute path.
pub proof fn law_expand_tilde_idempotent(p: Seq<char>, home: Seq<char>)
    requires
        home.len() > 0,
        home[0] == '/',
    ensures
        expand_tilde_spec(expand_tilde_spec(p, Some(home)), Some(home)) == expand_tilde_spec(
            p,
            Some(home),
        ),
{
    let q = expand_tilde_spec(p, Some(home));
    if p =~= seq!['~'] || has_prefix(p, seq!['~', '/']) {
        if !(p =~= seq!['~']) {
            let rest = p.skip(2);
            if rest.len() > 0 && rest[0] == '/' {
                assert(q == rest);
            } else if home.last() != '/' {
                assert(q[0] == home[0]);
            } else {
                assert(q[0] == home[0]);
            }
        }
        assert(q.len() > 0 && q[0] == '/');
        assert(!(q =~= seq!['~'])) by {
            if q =~= seq!['~'] {
                assert(q[0] == '~');
            }
        }
        assert(!has_prefix(q, seq!['~', '/'])) by {
            if has_prefix(q, seq!['~', '/']) {
                assert(q.take(2)[0] == q[0]);
            }
        }
    }
}


/// What expanding one path argument `o` to `n` against the home directory `h`
/// means: a path outside the home directory is kept; `~` becomes the home
/// directory; `~/rest` becomes a path ending in `rest`, under the home
/// directory unless `rest` is absolute; and a path in the home directory
/// becomes absolute whenever the home directory is.
pub open spec fn expanded_against(o: Seq<char>, n: Seq<char>, h: Seq<char>) -> bool {
    &&& !tilde_path(o) ==> n == o
    &&& o == seq!['~'] ==> n == h
    &&& has_prefix(o, seq!['~', '/']) ==> has_suffix(n, o.skip(2))
    &&& has_prefix(o, seq!['~', '/']) && !(o.len() > 2 && o[2] == '/') ==> has_prefix(n, h)
    &&& tilde_path(o) && h.len() > 0 && h[0] == '/' ==> n.len() > 0 && n[0] == '/'
}

proof fn lemma_expanded_against(o: Seq<char>, h: Seq<char>)
    ensures
        expanded_against(o, expand_tilde_spec(o, Some(h)), h),
{
    let n = expand_tilde_spec(o, Some(h));
    if o =~= seq!['~'] {
        assert(!has_prefix(o, seq!['~', '/']));
    } else if has_prefix(o, seq!['~', '/']) {
        let rest = o.skip(2);
        assert(o != seq!['~']);
        assert(n == join(h, rest));
        if rest.len() > 0 && rest[0] == '/' {
            assert(n.skip(0) =~= rest);
        } else if h.len() > 0 && h.last() != '/' {
            assert(n.skip(n.len() - rest.len()) =~= rest);
            assert(n.take(h.len() as int) =~= h);
            if h.len() > 0 {
                assert(n[0] == h[0]);
            }
        } else {
            assert(n.skip(n.len() - rest.len()) =~= rest);
            assert(n.take(h.len() as int) =~= h);
            if h.len() > 0 {
                assert(n[0] == h[0]);
            }
        }
        assert(o[2] == rest[0] || rest.len() == 0);
    }
}

/// With a known home directory, resolving the paths expands every path
/// argument (data directory, sync directory, and both binaries alike): each
/// one naming the home directory is rewritten under it, and the others are
/// kept.
pub proof fn law_resolve_expands_every_path(old: Args, new: Args, h: Seq<char>)
    requires
        resolved_with(old, new, Some(h)),
    ensures
        expanded_against(old.sync_dir@, new.sync_dir@, h),
        expanded_against(old.vestige_bin@, new.vestige_bin@, h),
        expanded_against(old.vestige_cli@, new.vestige_cli@, h),
        old.db_path is Some <==> new.db_path is Some,
        old.db_path is Some ==> expanded_against(
            old.db_path.unwrap()@,
            new.db_path.unwrap()@,
            h,
        ),
        unexpanded_count(old, Some(h)) == 0,
{
    lemma_expanded_against(old.sync_dir@, h);
    lemma_expanded_against(old.vestige_bin@, h);
    lemma_expanded_against(old.vestige_cli@, h);
    match old.db_path {
        Some(d) => lemma_expanded_against(d@, h),
        None => {},
    }
}

} // verus!
