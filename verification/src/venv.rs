//! Discovery of a Python virtual environment, and the command that activates
//! it: an externally resolved toolchain wins, then candidate directories
//! checked against the in-memory workspace tree, then a filesystem probe.

use vstd::prelude::*;

use crate::quoting::{has_nul, quote_spec, shell_quote};
use crate::strutil::{chars_of, chars_slice, chars_start_with, push_str_chars, string_of};
use vstd::string::StringExecFns;

verus! {

/// Target platform, passed in explicitly so the pipeline stays deterministic.
#[derive(Clone, Copy)]
pub enum Platform {
    Posix,
    Windows,
}

impl Platform {
    /// Name of a virtual environment's executable directory.
    pub open spec fn bin_dir_spec(self) -> Seq<char> {
        if self is Windows {
            "Scripts"@
        } else {
            "bin"@
        }
    }

    pub fn bin_dir_name(self) -> (r: &'static str)
        ensures
            r@ == self.bin_dir_spec(),
    {
        match self {
            Platform::Windows => "Scripts",
            Platform::Posix => "bin",
        }
    }

    /// Line ending appended to the activation command.
    pub open spec fn line_ending_spec(self) -> Seq<char> {
        if self is Windows {
            "\r"@
        } else {
            "\n"@
        }
    }

    pub fn line_ending(self) -> (r: &'static str)
        ensures
            r@ == self.line_ending_spec(),
    {
        match self {
            Platform::Windows => "\r",
            Platform::Posix => "\n",
        }
    }

    /// Separator between the entries of a `PATH`-style list.
    pub open spec fn path_sep_spec(self) -> char {
        if self is Windows {
            ';'
        } else {
            ':'
        }
    }

    pub fn path_list_separator(self) -> (r: char)
        ensures
            r == self.path_sep_spec(),
    {
        match self {
            Platform::Windows => ';',
            Platform::Posix => ':',
        }
    }
}

/// Which activation script the user asked for.
#[derive(Clone, Copy)]
pub enum ActivateScript {
    Default,
    Csh,
    Fish,
    Nushell,
    PowerShell,
}

/// Candidate directory names and activation kind of an enabled venv policy.
pub struct VenvConfig {
    pub directories: Vec<String>,
    pub activate_script: ActivateScript,
}

/// Whether virtual environments are detected at all, and how.
pub enum VenvPolicy {
    Off,
    On(VenvConfig),
}

impl VenvPolicy {
    pub fn as_option(&self) -> (r: Option<&VenvConfig>)
        ensures
            match r {
                Some(c) => self matches VenvPolicy::On(c2) && c == c2,
                None => self is Off,
            },
    {
        match self {
            VenvPolicy::Off => None,
            VenvPolicy::On(c) => Some(c),
        }
    }
}

/// POSIX-style path join: an absolute right side replaces the left one.
pub open spec fn join_path_s(a: Seq<char>, b: Seq<char>) -> Seq<char> {
    if b.len() > 0 && b[0] == '/' {
        b
    } else if a.len() == 0 {
        b
    } else if a[a.len() - 1] == '/' {
        a + b
    } else {
        a + seq!['/'] + b
    }
}

pub fn join_path(a: &str, b: &str) -> (r: String)
    ensures
        r@ == join_path_s(a@, b@),
{
    let bc = chars_of(b);
    if bc.len() > 0 && bc[0] == '/' {
        return String::from_str(b);
    }
    let mut out = chars_of(a);
    if out.len() == 0 {
        return String::from_str(b);
    }
    if out[out.len() - 1] != '/' {
        out.push('/');
    }
    push_str_chars(&mut out, b);
    proof {
        assert(out@ =~= join_path_s(a@, b@));
    }
    string_of(&out)
}

/// Index of the last `/`, or `-1` when there is none.
pub open spec fn last_slash_idx(s: Seq<char>) -> int
    decreases s.len(),
{
    if s.len() == 0 {
        -1
    } else if s[s.len() - 1] == '/' {
        s.len() - 1
    } else {
        last_slash_idx(s.drop_last())
    }
}

/// Parent directory of a canonical path (no trailing separator): `None` for
/// the root and the empty path, the empty path for a bare name.
pub open spec fn parent_dir_s(s: Seq<char>) -> Option<Seq<char>> {
    if s.len() == 0 {
        None
    } else {
        let i = last_slash_idx(s);
        if i == -1 {
            Some(Seq::empty())
        } else if i == 0 {
            if s.len() == 1 {
                None
            } else {
                Some(seq!['/'])
            }
        } else {
            Some(s.subrange(0, i))
        }
    }
}

proof fn lemma_last_slash_at(s: Seq<char>, i: int)
    requires
        0 <= i < s.len(),
        s[i] == '/',
        forall|k: int| i < k < s.len() ==> s[k] != '/',
    ensures
        last_slash_idx(s) == i,
    decreases s.len(),
{
    if i == s.len() - 1 {
    } else {
        assert(s[s.len() - 1] != '/');
        assert(forall|k: int| 0 <= k < s.drop_last().len() ==> s.drop_last()[k] == s[k]);
        lemma_last_slash_at(s.drop_last(), i);
    }
}

proof fn lemma_last_slash_none(s: Seq<char>)
    requires
        forall|k: int| 0 <= k < s.len() ==> s[k] != '/',
    ensures
        last_slash_idx(s) == -1,
    decreases s.len(),
{
    if s.len() == 0 {
    } else {
        assert(forall|k: int| 0 <= k < s.drop_last().len() ==> s.drop_last()[k] == s[k]);
        lemma_last_slash_none(s.drop_last());
    }
}

pub fn parent_dir(s: &str) -> (r: Option<String>)
    ensures
        match r {
            Some(p) => parent_dir_s(s@) == Some(p@),
            None => parent_dir_s(s@) is None,
        },
{
    let cs = chars_of(s);
    if cs.len() == 0 {
        return None;
    }
    let mut j: usize = cs.len();
    while j > 0
        invariant
            cs@ == s@,
            j <= cs@.len(),
            forall|k: int| j <= k < cs@.len() ==> cs@[k] != '/',
        decreases j,
    {
        if cs[j - 1] == '/' {
            proof {
                lemma_last_slash_at(s@, j - 1);
            }
            if j - 1 == 0 {
                if cs.len() == 1 {
                    return None;
                }
                let root = chars_slice(&cs, 0, 1);
                proof {
                    assert(root@ =~= seq!['/']);
                }
                return Some(string_of(&root));
            }
            let p = chars_slice(&cs, 0, j - 1);
            return Some(string_of(&p));
        }
        j -= 1;
    }
    proof {
        lemma_last_slash_none(s@);
    }
    let empty: Vec<char> = Vec::new();
    proof {
        assert(empty@ =~= Seq::<char>::empty());
    }
    Some(string_of(&empty))
}

/// Root of the venv that an externally resolved toolchain executable lives
/// in: the executable's grandparent directory.
pub open spec fn toolchain_venv_s(p: Seq<char>) -> Option<Seq<char>> {
    match parent_dir_s(p) {
        Some(q) => parent_dir_s(q),
        None => None,
    }
}

pub fn venv_root_from_toolchain(path: &str) -> (r: Option<String>)
    ensures
        match r {
            Some(p) => toolchain_venv_s(path@) == Some(p@),
            None => toolchain_venv_s(path@) is None,
        },
{
    match parent_dir(path) {
        Some(q) => parent_dir(q.as_str()),
        None => None,
    }
}

/// In-memory snapshot of one workspace member: root path, whether the root
/// entry is a directory, whether the member is locally mounted, and the
/// member-relative paths of its directory entries.
pub struct Worktree {
    pub id: u64,
    pub abs_path: String,
    pub root_is_dir: bool,
    pub is_local: bool,
    pub dir_entries: Vec<String>,
}

/// Whether the member's in-memory index lists `rel` as a directory.
pub open spec fn wt_has_dir(wt: &Worktree, rel: Seq<char>) -> bool {
    exists|i: int| 0 <= i < wt.dir_entries@.len() && (#[trigger] wt.dir_entries@[i])@ == rel
}

pub fn worktree_entry_is_dir(wt: &Worktree, rel: &str) -> (r: bool)
    ensures
        r == wt_has_dir(wt, rel@),
{
    let mut i: usize = 0;
    while i < wt.dir_entries.len()
        invariant
            i <= wt.dir_entries@.len(),
            forall|j: int| 0 <= j < i ==> (#[trigger] wt.dir_entries@[j])@ != rel@,
        decreases wt.dir_entries@.len() - i,
    {
        if crate::strutil::str_eq(wt.dir_entries[i].as_str(), rel) {
            return true;
        }
        i += 1;
    }
    false
}

/// Path of `path` relative to the member rooted at `abs`, when `path` lies
/// under it.
pub open spec fn rel_path_under_s(abs: Seq<char>, path: Seq<char>) -> Option<Seq<char>> {
    if path == abs {
        Some(Seq::<char>::empty())
    } else if path.len() > abs.len() + 1 && path.subrange(0, abs.len() as int + 1) == abs + seq![
        '/',
    ] {
        Some(path.subrange(abs.len() as int + 1, path.len() as int))
    } else {
        None
    }
}

/// First member whose root contains `path`, with the relative path.
pub open spec fn find_worktree_s(trees: Seq<Worktree>, path: Seq<char>) -> Option<
    (int, Seq<char>),
>
    decreases trees.len(),
{
    if trees.len() == 0 {
        None
    } else {
        match rel_path_under_s(trees[0].abs_path@, path) {
            Some(rel) => Some((0, rel)),
            None => match find_worktree_s(trees.drop_first(), path) {
                Some((i, rel)) => Some((i + 1, rel)),
                None => None,
            },
        }
    }
}

fn rel_path_under(abs: &str, path: &str) -> (r: Option<String>)
    ensures
        match r {
            Some(rel) => rel_path_under_s(abs@, path@) == Some(rel@),
            None => rel_path_under_s(abs@, path@) is None,
        },
{
    if crate::strutil::str_eq(abs, path) {
        let empty: Vec<char> = Vec::new();
        proof {
            assert(empty@ =~= Seq::<char>::empty());
        }
        return Some(string_of(&empty));
    }
    let pc = chars_of(path);
    let mut prefix = chars_of(abs);
    prefix.push('/');
    if pc.len() > prefix.len() && chars_start_with(&pc, &prefix) {
        let rel = chars_slice(&pc, prefix.len(), pc.len());
        proof {
            assert(prefix@ =~= abs@ + seq!['/']);
            assert(pc@.subrange(0, abs@.len() as int + 1) == prefix@);
        }
        return Some(string_of(&rel));
    }
    proof {
        if pc@.len() > abs@.len() + 1 && pc@.subrange(0, abs@.len() as int + 1) == abs@ + seq![
            '/',
        ] {
            assert(prefix@ =~= abs@ + seq!['/']);
            assert(prefix@.len() <= pc@.len() && pc@.subrange(0, prefix@.len() as int) == prefix@);
        }
    }
    None
}

pub fn find_worktree<'a>(trees: &'a Vec<Worktree>, path: &str) -> (r: Option<(usize, String)>)
    ensures
        match r {
            Some((i, rel)) => i < trees@.len() && find_worktree_s(trees@, path@) == Some(
                (i as int, rel@),
            ),
            None => find_worktree_s(trees@, path@) is None,
        },
{
    let mut i: usize = 0;
    while i < trees.len()
        invariant
            i <= trees@.len(),
            forall|j: int|
                0 <= j < i ==> rel_path_under_s((#[trigger] trees@[j]).abs_path@, path@) is None,
        decreases trees@.len() - i,
    {
        match rel_path_under(trees[i].abs_path.as_str(), path) {
            Some(rel) => {
                proof {
                    lemma_find_worktree_at(trees@, path@, i as int, rel@);
                }
                return Some((i, rel));
            },
            None => {},
        }
        i += 1;
    }
    proof {
        lemma_find_worktree_none(trees@, path@);
    }
    None
}

proof fn lemma_find_worktree_at(trees: Seq<Worktree>, path: Seq<char>, i: int, rel: Seq<char>)
    requires
        0 <= i < trees.len(),
        rel_path_under_s(trees[i].abs_path@, path) == Some(rel),
        forall|j: int| 0 <= j < i ==> rel_path_under_s((#[trigger] trees[j]).abs_path@, path) is None,
    ensures
        find_worktree_s(trees, path) == Some((i, rel)),
    decreases i,
{
    if i == 0 {
    } else {
        assert(forall|j: int| 0 <= j < trees.drop_first().len() ==> #[trigger] trees.drop_first()[j]
            == trees[j + 1]);
        lemma_find_worktree_at(trees.drop_first(), path, i - 1, rel);
    }
}

proof fn lemma_find_worktree_none(trees: Seq<Worktree>, path: Seq<char>)
    requires
        forall|j: int|
            0 <= j < trees.len() ==> rel_path_under_s((#[trigger] trees[j]).abs_path@, path) is None,
    ensures
        find_worktree_s(trees, path) is None,
    decreases trees.len(),
{
    if trees.len() == 0 {
    } else {
        assert(forall|j: int| 0 <= j < trees.drop_first().len() ==> #[trigger] trees.drop_first()[j]
            == trees[j + 1]);
        lemma_find_worktree_none(trees.drop_first(), path);
    }
}

/// Whether the in-memory workspace tree lists `path` as a directory: the
/// member containing it must index it.
pub open spec fn tree_has_dir_s(trees: Seq<Worktree>, path: Seq<char>) -> bool {
    match find_worktree_s(trees, path) {
        Some((i, rel)) => wt_has_dir(&trees[i], rel),
        None => false,
    }
}

pub fn tree_has_dir(trees: &Vec<Worktree>, path: &str) -> (r: bool)
    ensures
        r == tree_has_dir_s(trees@, path@),
{
    match find_worktree(trees, path) {
        Some((i, rel)) => worktree_entry_is_dir(&trees[i], rel.as_str()),
        None => false,
    }
}

/// What the filesystem probes of the venv fallback reported: the candidate
/// paths that exist as directories on disk.
pub struct FsSnapshot {
    pub dirs: Vec<String>,
}

pub open spec fn fs_has_dir_s(fs: &FsSnapshot, path: Seq<char>) -> bool {
    exists|i: int| 0 <= i < fs.dirs@.len() && (#[trigger] fs.dirs@[i])@ == path
}

pub fn fs_has_dir(fs: &FsSnapshot, path: &str) -> (r: bool)
    ensures
        r == fs_has_dir_s(fs, path@),
{
    let mut i: usize = 0;
    while i < fs.dirs.len()
        invariant
            i <= fs.dirs@.len(),
            forall|j: int| 0 <= j < i ==> (#[trigger] fs.dirs@[j])@ != path@,
        decreases fs.dirs@.len() - i,
    {
        if crate::strutil::str_eq(fs.dirs[i].as_str(), path) {
            return true;
        }
        i += 1;
    }
    false
}

/// The absolute paths probed by the filesystem fallback, in candidate order:
/// `<abs_path>/<name>/<bin-dir>` for each candidate directory name.
pub open spec fn venv_candidate_bins_s(
    abs_path: Seq<char>,
    dirs: Seq<Seq<char>>,
    platform: Platform,
) -> Seq<Seq<char>> {
    dirs.map_values(
        |name: Seq<char>| join_path_s(join_path_s(abs_path, name), platform.bin_dir_spec()),
    )
}

/// The candidate paths the filesystem fallback will probe; the caller probes
/// exactly these and reports the hits in an `FsSnapshot`.
pub fn venv_candidate_bins(abs_path: &str, cfg: &VenvConfig, platform: Platform) -> (r: Vec<
    String,
>)
    ensures
        r.deep_view() == venv_candidate_bins_s(abs_path@, cfg.directories.deep_view(), platform),
{
    let mut r: Vec<String> = Vec::new();
    let mut i: usize = 0;
    while i < cfg.directories.len()
        invariant
            i <= cfg.directories@.len(),
            r@.len() == i,
            forall|j: int| 0 <= j < i ==> (#[trigger] r@[j])@ == join_path_s(
                join_path_s(abs_path@, cfg.directories@[j]@),
                platform.bin_dir_spec(),
            ),
        decreases cfg.directories@.len() - i,
    {
        let vp = join_path(abs_path, cfg.directories[i].as_str());
        let bin = join_path(vp.as_str(), platform.bin_dir_name());
        r.push(bin);
        i += 1;
    }
    proof {
        assert(r.deep_view() =~= venv_candidate_bins_s(
            abs_path@,
            cfg.directories.deep_view(),
            platform,
        ));
    }
    r
}

/// First candidate directory (in policy order) whose executable directory
/// the in-memory workspace tree lists.
pub open spec fn find_venv_in_worktree_s(
    abs_path: Seq<char>,
    dirs: Seq<Seq<char>>,
    trees: Seq<Worktree>,
    platform: Platform,
) -> Option<Seq<char>>
    decreases dirs.len(),
{
    if dirs.len() == 0 {
        None
    } else {
        let vp = join_path_s(abs_path, dirs[0]);
        if tree_has_dir_s(trees, join_path_s(vp, platform.bin_dir_spec())) {
            Some(vp)
        } else {
            find_venv_in_worktree_s(abs_path, dirs.drop_first(), trees, platform)
        }
    }
}

pub fn find_venv_in_worktree(
    abs_path: &str,
    cfg: &VenvConfig,
    trees: &Vec<Worktree>,
    platform: Platform,
) -> (r: Option<String>)
    ensures
        match r {
            Some(p) => find_venv_in_worktree_s(
                abs_path@,
                cfg.directories.deep_view(),
                trees@,
                platform,
            ) == Some(p@),
            None => find_venv_in_worktree_s(
                abs_path@,
                cfg.directories.deep_view(),
                trees@,
                platform,
            ) is None,
        },
{
    let ghost dirs = cfg.directories.deep_view();
    let mut i: usize = 0;
    while i < cfg.directories.len()
        invariant
            dirs == cfg.directories.deep_view(),
            dirs.len() == cfg.directories@.len(),
            i <= dirs.len(),
            forall|j: int|
                0 <= j < i ==> !tree_has_dir_s(
                    trees@,
                    join_path_s(
                        join_path_s(abs_path@, #[trigger] dirs[j]),
                        platform.bin_dir_spec(),
                    ),
                ),
        decreases dirs.len() - i,
    {
        proof {
            assert(dirs[i as int] == cfg.directories@[i as int]@);
        }
        let vp = join_path(abs_path, cfg.directories[i].as_str());
        let bin = join_path(vp.as_str(), platform.bin_dir_name());
        if tree_has_dir(trees, bin.as_str()) {
            proof {
                lemma_find_venv_worktree_at(abs_path@, dirs, trees@, platform, i as int);
            }
            return Some(vp);
        }
        i += 1;
    }
    proof {
        lemma_find_venv_worktree_none(abs_path@, dirs, trees@, platform);
    }
    None
}

proof fn lemma_find_venv_worktree_at(
    abs_path: Seq<char>,
    dirs: Seq<Seq<char>>,
    trees: Seq<Worktree>,
    platform: Platform,
    i: int,
)
    requires
        0 <= i < dirs.len(),
        tree_has_dir_s(
            trees,
            join_path_s(join_path_s(abs_path, dirs[i]), platform.bin_dir_spec()),
        ),
        forall|j: int|
            0 <= j < i ==> !tree_has_dir_s(
                trees,
                join_path_s(join_path_s(abs_path, #[trigger] dirs[j]), platform.bin_dir_spec()),
            ),
    ensures
        find_venv_in_worktree_s(abs_path, dirs, trees, platform) == Some(
            join_path_s(abs_path, dirs[i]),
        ),
    decreases i,
{
    if i == 0 {
    } else {
        assert(forall|j: int| 0 <= j < dirs.drop_first().len() ==> #[trigger] dirs.drop_first()[j]
            == dirs[j + 1]);
        lemma_find_venv_worktree_at(abs_path, dirs.drop_first(), trees, platform, i - 1);
    }
}

proof fn lemma_find_venv_worktree_none(
    abs_path: Seq<char>,
    dirs: Seq<Seq<char>>,
    trees: Seq<Worktree>,
    platform: Platform,
)
    requires
        forall|j: int|
            0 <= j < dirs.len() ==> !tree_has_dir_s(
                trees,
                join_path_s(join_path_s(abs_path, #[trigger] dirs[j]), platform.bin_dir_spec()),
            ),
    ensures
        find_venv_in_worktree_s(abs_path, dirs, trees, platform) is None,
    decreases dirs.len(),
{
    if dirs.len() == 0 {
    } else {
        assert(forall|j: int| 0 <= j < dirs.drop_first().len() ==> #[trigger] dirs.drop_first()[j]
            == dirs[j + 1]);
        lemma_find_venv_worktree_none(abs_path, dirs.drop_first(), trees, platform);
    }
}

/// First candidate directory whose executable directory the filesystem
/// probes found, valid only when the containing member is locally mounted.
pub open spec fn find_venv_on_filesystem_s(
    abs_path: Seq<char>,
    dirs: Seq<Seq<char>>,
    trees: Seq<Worktree>,
    fs: &FsSnapshot,
    platform: Platform,
) -> Option<Seq<char>>
    decreases dirs.len(),
{
    if find_worktree_s(trees, abs_path) matches Some((i, _)) && trees[i].is_local {
        find_venv_fs_scan_s(abs_path, dirs, fs, platform)
    } else {
        None
    }
}

pub open spec fn find_venv_fs_scan_s(
    abs_path: Seq<char>,
    dirs: Seq<Seq<char>>,
    fs: &FsSnapshot,
    platform: Platform,
) -> Option<Seq<char>>
    decreases dirs.len(),
{
    if dirs.len() == 0 {
        None
    } else {
        let vp = join_path_s(abs_path, dirs[0]);
        if fs_has_dir_s(fs, join_path_s(vp, platform.bin_dir_spec())) {
            Some(vp)
        } else {
            find_venv_fs_scan_s(abs_path, dirs.drop_first(), fs, platform)
        }
    }
}

pub fn find_venv_on_filesystem(
    abs_path: &str,
    cfg: &VenvConfig,
    trees: &Vec<Worktree>,
    fs: &FsSnapshot,
    platform: Platform,
) -> (r: Option<String>)
    ensures
        match r {
            Some(p) => find_venv_on_filesystem_s(
                abs_path@,
                cfg.directories.deep_view(),
                trees@,
                fs,
                platform,
            ) == Some(p@),
            None => find_venv_on_filesystem_s(
                abs_path@,
                cfg.directories.deep_view(),
                trees@,
                fs,
                platform,
            ) is None,
        },
{
    let local = match find_worktree(trees, abs_path) {
        Some((i, _)) => trees[i].is_local,
        None => false,
    };
    if !local {
        return None;
    }
    let ghost dirs = cfg.directories.deep_view();
    let mut i: usize = 0;
    while i < cfg.directories.len()
        invariant
            dirs == cfg.directories.deep_view(),
            dirs.len() == cfg.directories@.len(),
            i <= dirs.len(),
            forall|d: Seq<Seq<char>>|
                find_venv_on_filesystem_s(abs_path@, d, trees@, fs, platform)
                    == #[trigger] find_venv_fs_scan_s(abs_path@, d, fs, platform),
            forall|j: int|
                0 <= j < i ==> !fs_has_dir_s(
                    fs,
                    join_path_s(
                        join_path_s(abs_path@, #[trigger] dirs[j]),
                        platform.bin_dir_spec(),
                    ),
                ),
        decreases dirs.len() - i,
    {
        proof {
            assert(dirs[i as int] == cfg.directories@[i as int]@);
        }
        let vp = join_path(abs_path, cfg.directories[i].as_str());
        let bin = join_path(vp.as_str(), platform.bin_dir_name());
        if fs_has_dir(fs, bin.as_str()) {
            proof {
                lemma_find_venv_fs_at(abs_path@, dirs, fs, platform, i as int);
            }
            return Some(vp);
        }
        i += 1;
    }
    proof {
        lemma_find_venv_fs_none(abs_path@, dirs, fs, platform);
    }
    None
}

proof fn lemma_find_venv_fs_at(
    abs_path: Seq<char>,
    dirs: Seq<Seq<char>>,
    fs: &FsSnapshot,
    platform: Platform,
    i: int,
)
    requires
        0 <= i < dirs.len(),
        fs_has_dir_s(fs, join_path_s(join_path_s(abs_path, dirs[i]), platform.bin_dir_spec())),
        forall|j: int|
            0 <= j < i ==> !fs_has_dir_s(
                fs,
                join_path_s(join_path_s(abs_path, #[trigger] dirs[j]), platform.bin_dir_spec()),
            ),
    ensures
        find_venv_fs_scan_s(abs_path, dirs, fs, platform) == Some(join_path_s(abs_path, dirs[i])),
    decreases i,
{
    if i == 0 {
    } else {
        assert(forall|j: int| 0 <= j < dirs.drop_first().len() ==> #[trigger] dirs.drop_first()[j]
            == dirs[j + 1]);
        lemma_find_venv_fs_at(abs_path, dirs.drop_first(), fs, platform, i - 1);
    }
}

proof fn lemma_find_venv_fs_none(
    abs_path: Seq<char>,
    dirs: Seq<Seq<char>>,
    fs: &FsSnapshot,
    platform: Platform,
)
    requires
        forall|j: int|
            0 <= j < dirs.len() ==> !fs_has_dir_s(
                fs,
                join_path_s(join_path_s(abs_path, #[trigger] dirs[j]), platform.bin_dir_spec()),
            ),
    ensures
        find_venv_fs_scan_s(abs_path, dirs, fs, platform) is None,
    decreases dirs.len(),
{
    if dirs.len() == 0 {
    } else {
        assert(forall|j: int| 0 <= j < dirs.drop_first().len() ==> #[trigger] dirs.drop_first()[j]
            == dirs[j + 1]);
        lemma_find_venv_fs_none(abs_path, dirs.drop_first(), fs, platform);
    }
}

/// The whole locator, short-circuiting in order: a toolchain bound to the
/// containing member wins (its venv root, or nothing when the executable
/// path is too shallow); with the policy off nothing is found; otherwise the
/// in-memory tree is consulted first and the filesystem probes last.
pub open spec fn python_venv_directory_s(
    abs_path: Seq<char>,
    policy: &VenvPolicy,
    toolchain: Option<Seq<char>>,
    trees: Seq<Worktree>,
    fs: &FsSnapshot,
    platform: Platform,
) -> Option<Seq<char>> {
    if find_worktree_s(trees, abs_path) is Some && toolchain is Some {
        toolchain_venv_s(toolchain->0)
    } else {
        match policy {
            VenvPolicy::Off => None,
            VenvPolicy::On(cfg) => {
                let dirs = cfg.directories.deep_view();
                match find_venv_in_worktree_s(abs_path, dirs, trees, platform) {
                    Some(p) => Some(p),
                    None => find_venv_on_filesystem_s(abs_path, dirs, trees, fs, platform),
                }
            },
        }
    }
}

pub fn python_venv_directory(
    abs_path: &str,
    policy: &VenvPolicy,
    toolchain: Option<&String>,
    trees: &Vec<Worktree>,
    fs: &FsSnapshot,
    platform: Platform,
) -> (r: Option<String>)
    ensures
        match r {
            Some(p) => python_venv_directory_s(
                abs_path@,
                policy,
                match toolchain {
                    Some(t) => Some(t@),
                    None => None,
                },
                trees@,
                fs,
                platform,
            ) == Some(p@),
            None => python_venv_directory_s(
                abs_path@,
                policy,
                match toolchain {
                    Some(t) => Some(t@),
                    None => None,
                },
                trees@,
                fs,
                platform,
            ) is None,
        },
{
    let in_tree = match find_worktree(trees, abs_path) {
        Some(_) => true,
        None => false,
    };
    if in_tree {
        if let Some(t) = toolchain {
            return venv_root_from_toolchain(t.as_str());
        }
    }
    let cfg = match policy.as_option() {
        Some(c) => c,
        None => {
            return None;
        },
    };
    if let Some(p) = find_venv_in_worktree(abs_path, cfg, trees, platform) {
        return Some(p);
    }
    find_venv_on_filesystem(abs_path, cfg, trees, fs, platform)
}

/// Keyword that sources the activation script for the chosen script kind.
pub open spec fn activate_keyword_s(script: ActivateScript, platform: Platform) -> Seq<char> {
    match script {
        ActivateScript::Default => if platform is Windows {
            "."@
        } else {
            "source"@
        },
        ActivateScript::Nushell => "overlay use"@,
        ActivateScript::PowerShell => "."@,
        _ => "source"@,
    }
}

/// File name of the activation script for the chosen script kind.
pub open spec fn activate_script_name_s(script: ActivateScript) -> Seq<char> {
    match script {
        ActivateScript::Default => "activate"@,
        ActivateScript::Csh => "activate.csh"@,
        ActivateScript::Fish => "activate.fish"@,
        ActivateScript::Nushell => "activate.nu"@,
        ActivateScript::PowerShell => "activate.ps1"@,
    }
}

/// The activation line typed into a fresh interactive shell:
/// `<keyword> <quoted script path><line-ending>`; nothing when the policy is
/// off or the script path cannot be quoted.
pub open spec fn python_activate_command_s(
    venv_base: Seq<char>,
    policy: &VenvPolicy,
    platform: Platform,
) -> Option<Seq<char>> {
    match policy {
        VenvPolicy::Off => None,
        VenvPolicy::On(cfg) => {
            let path = join_path_s(
                join_path_s(venv_base, platform.bin_dir_spec()),
                activate_script_name_s(cfg.activate_script),
            );
            if has_nul(path) {
                None
            } else {
                Some(
                    activate_keyword_s(cfg.activate_script, platform) + seq![' '] + quote_spec(path)
                        + platform.line_ending_spec(),
                )
            }
        },
    }
}

pub fn python_activate_command(
    venv_base_directory: &str,
    venv_settings: &VenvPolicy,
    platform: Platform,
) -> (r: Option<String>)
    ensures
        match r {
            Some(c) => python_activate_command_s(venv_base_directory@, venv_settings, platform)
                == Some(c@),
            None => python_activate_command_s(venv_base_directory@, venv_settings, platform)
                is None,
        },
{
    let cfg = match venv_settings.as_option() {
        Some(c) => c,
        None => {
            return None;
        },
    };
    let keyword: &str = match cfg.activate_script {
        ActivateScript::Default => match platform {
            Platform::Windows => ".",
            Platform::Posix => "source",
        },
        ActivateScript::Nushell => "overlay use",
        ActivateScript::PowerShell => ".",
        _ => "source",
    };
    let script: &str = match cfg.activate_script {
        ActivateScript::Default => "activate",
        ActivateScript::Csh => "activate.csh",
        ActivateScript::Fish => "activate.fish",
        ActivateScript::Nushell => "activate.nu",
        ActivateScript::PowerShell => "activate.ps1",
    };
    let path = join_path(join_path(venv_base_directory, platform.bin_dir_name()).as_str(), script);
    let quoted = match shell_quote(path.as_str()) {
        Some(q) => q,
        None => {
            return None;
        },
    };
    let mut out = chars_of(keyword);
    out.push(' ');
    push_str_chars(&mut out, quoted.as_str());
    push_str_chars(&mut out, platform.line_ending());
    proof {
        assert(out@ =~= activate_keyword_s(cfg.activate_script, platform) + seq![' ']
            + quote_spec(
            join_path_s(
                join_path_s(venv_base_directory@, platform.bin_dir_spec()),
                activate_script_name_s(cfg.activate_script),
            ),
        ) + platform.line_ending_spec());
    }
    Some(string_of(&out))
}

/// Venv precedence: a toolchain resolved for the containing member wins
/// over the settings-declared candidate directories, and with detection
/// switched off (and no toolchain) nothing is consulted and nothing found.
pub proof fn lemma_venv_precedence(
    abs_path: Seq<char>,
    policy: &VenvPolicy,
    toolchain: Option<Seq<char>>,
    trees: Seq<Worktree>,
    fs: &FsSnapshot,
    platform: Platform,
)
    ensures
        (find_worktree_s(trees, abs_path) is Some && toolchain is Some)
            ==> python_venv_directory_s(abs_path, policy, toolchain, trees, fs, platform)
            == toolchain_venv_s(toolchain->0),
        (policy is Off && !(find_worktree_s(trees, abs_path) is Some && toolchain is Some))
            ==> python_venv_directory_s(abs_path, policy, toolchain, trees, fs, platform) is None,
{
}

} // verus!
