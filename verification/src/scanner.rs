//! Scanning directory trees: the files found and, for structure checks, the statistics of each
//! directory and the allowlist violations. The walk of the file system itself is the caller's:
//! it hands over the entries in the order the walker produced them.
use vstd::prelude::*;

use crate::allowlist::{opt_text, AllowlistRule};
use crate::checker::{DirStats, StructureViolation, ViolationKind, ViolationView};
use crate::error::SlocGuardError;
use crate::filter::{DirectoryPruner, FileFilter, GlobFilter};
use crate::glob::any_glob_matches;
use crate::path_utils::{
    canonical, canonical_path, extension_of, file_name_or_empty, parent, parent_of,
};
use crate::project::{normalize_for_matching, normalized, PathsView, ProjectPaths};
use crate::structure_config::StructureScanConfig;

verus! {

// ---------------------------------------------------------------------------------------------
// Directory statistics
// ---------------------------------------------------------------------------------------------

/// Statistics keyed by path, as plain values.
pub open spec fn stats_view(v: Seq<(String, DirStats)>) -> Seq<(Seq<char>, DirStats)> {
    v.map_values(|e: (String, DirStats)| (e.0@, e.1))
}

/// Index of the first entry with key `key` at or after `from`, or -1.
pub open spec fn find_key(s: Seq<(Seq<char>, DirStats)>, key: Seq<char>, from: int) -> int
    decreases s.len() - from,
{
    if from < 0 || from >= s.len() {
        -1
    } else if s[from].0 == key {
        from
    } else {
        find_key(s, key, from + 1)
    }
}

/// Whether no two entries share a key.
pub open spec fn keys_distinct(s: Seq<(Seq<char>, DirStats)>) -> bool {
    forall|i: int, j: int| 0 <= i < j < s.len() ==> #[trigger] s[i].0 != #[trigger] s[j].0
}

/// The statistics recorded for `key`, if any.
pub open spec fn stats_for(s: Seq<(Seq<char>, DirStats)>, key: Seq<char>) -> Option<DirStats> {
    if find_key(s, key, 0) >= 0 {
        Some(s[find_key(s, key, 0)].1)
    } else {
        None
    }
}

/// `s` with an entry for `key`: unchanged if it has one, else with empty statistics at
/// `depth` added at the end.
pub open spec fn with_dir(s: Seq<(Seq<char>, DirStats)>, key: Seq<char>, depth: usize) -> Seq<
    (Seq<char>, DirStats),
> {
    if find_key(s, key, 0) >= 0 {
        s
    } else {
        s.push((key, DirStats { file_count: 0, dir_count: 0, depth }))
    }
}

/// `s` with one more file counted for `key` (an entry at `depth` is added if missing).
pub open spec fn bump_files(s: Seq<(Seq<char>, DirStats)>, key: Seq<char>, depth: usize) -> Seq<
    (Seq<char>, DirStats),
> {
    let t = with_dir(s, key, depth);
    let i = find_key(t, key, 0);
    t.update(i, (key, DirStats { file_count: (t[i].1.file_count + 1) as usize, ..t[i].1 }))
}

/// `s` with one more subdirectory counted for `key` (an entry at `depth` is added if
/// missing).
pub open spec fn bump_dirs(s: Seq<(Seq<char>, DirStats)>, key: Seq<char>, depth: usize) -> Seq<
    (Seq<char>, DirStats),
> {
    let t = with_dir(s, key, depth);
    let i = find_key(t, key, 0);
    t.update(i, (key, DirStats { dir_count: (t[i].1.dir_count + 1) as usize, ..t[i].1 }))
}

/// Every count of `s` is at most `n`.
pub open spec fn counts_at_most(s: Seq<(Seq<char>, DirStats)>, n: int) -> bool {
    forall|i: int|
        0 <= i < s.len() ==> (#[trigger] s[i]).1.file_count <= n && s[i].1.dir_count <= n
}

proof fn lemma_find_key_found(s: Seq<(Seq<char>, DirStats)>, key: Seq<char>, from: int)
    requires
        0 <= from,
    ensures
        find_key(s, key, from) >= 0 ==> from <= find_key(s, key, from) < s.len() && s[find_key(
            s,
            key,
            from,
        )].0 == key,
        find_key(s, key, from) == -1 ==> forall|j: int| from <= j < s.len() ==> s[j].0 != key,
        find_key(s, key, from) >= -1,
    decreases s.len() - from,
{
    if from < s.len() {
        lemma_find_key_found(s, key, from + 1);
    }
}

proof fn lemma_with_dir(s: Seq<(Seq<char>, DirStats)>, key: Seq<char>, depth: usize)
    requires
        keys_distinct(s),
    ensures
        keys_distinct(with_dir(s, key, depth)),
        find_key(with_dir(s, key, depth), key, 0) >= 0,
        find_key(with_dir(s, key, depth), key, 0) < with_dir(s, key, depth).len(),
        with_dir(s, key, depth)[find_key(with_dir(s, key, depth), key, 0)].0 == key,
{
    lemma_find_key_found(s, key, 0);
    let t = with_dir(s, key, depth);
    if find_key(s, key, 0) < 0 {
        assert(t[s.len() as int].0 == key);
        lemma_find_key_found(t, key, 0);
        if find_key(t, key, 0) == -1 {
            assert(t[s.len() as int].0 != key);
        }
    }
    lemma_find_key_found(t, key, 0);
}

/// The map of statistics: a list of entries with distinct keys, in insertion order.
struct StatsTable {
    entries: Vec<(String, DirStats)>,
}

impl StatsTable {
    spec fn view(&self) -> Seq<(Seq<char>, DirStats)> {
        stats_view(self.entries@)
    }

    fn find(&self, key: &String) -> (r: Option<usize>)
        ensures
            match r {
                Some(i) => find_key(self.view(), key@, 0) == i as int,
                None => find_key(self.view(), key@, 0) == -1,
            },
    {
        let mut i: usize = 0;
        while i < self.entries.len()
            invariant
                0 <= i <= self.entries@.len(),
                find_key(self.view(), key@, 0) == find_key(self.view(), key@, i as int),
            decreases self.entries@.len() - i,
        {
            assert(self.view()[i as int].0 == self.entries@[i as int].0@);
            if self.entries[i].0 == *key {
                return Some(i);
            }
            i = i + 1;
        }
        None
    }

    fn ensure(&mut self, key: &String, depth: usize) -> (i: usize)
        requires
            keys_distinct(old(self).view()),
        ensures
            final(self).view() == with_dir(old(self).view(), key@, depth),
            keys_distinct(final(self).view()),
            i == find_key(final(self).view(), key@, 0),
            i < final(self).view().len(),
            final(self).view()[i as int].0 == key@,
    {
        proof {
            lemma_with_dir(self.view(), key@, depth);
            lemma_find_key_found(self.view(), key@, 0);
        }
        match self.find(key) {
            Some(i) => i,
            None => {
                let ghost before = self.view();
                self.entries.push((key.clone(), DirStats::at_depth(depth)));
                assert(self.view() =~= before.push(
                    (key@, DirStats { file_count: 0, dir_count: 0, depth }),
                ));
                proof {
                    lemma_find_key_found(self.view(), key@, 0);
                    let k = find_key(self.view(), key@, 0);
                    if k >= 0 && k < before.len() {
                        assert(self.view()[k] == before[k]);
                    }
                    assert(self.view()[before.len() as int].0 == key@);
                }
                self.entries.len() - 1
            },
        }
    }

    fn add_file(&mut self, key: &String, depth: usize, bound: Ghost<int>)
        requires
            keys_distinct(old(self).view()),
            counts_at_most(old(self).view(), bound@),
            0 <= bound@ < usize::MAX,
        ensures
            final(self).view() == bump_files(old(self).view(), key@, depth),
            keys_distinct(final(self).view()),
            counts_at_most(final(self).view(), bound@ + 1),
    {
        let ghost s0 = self.view();
        let i = self.ensure(key, depth);
        let ghost t = self.view();
        assert(t[i as int] == (self.entries@[i as int].0@, self.entries@[i as int].1));
        assert(counts_at_most(t, bound@)) by {
            assert forall|a: int| 0 <= a < t.len() implies (#[trigger] t[a]).1.file_count <= bound@
                && t[a].1.dir_count <= bound@ by {
                if find_key(s0, key@, 0) >= 0 {
                    assert(t == s0);
                } else if a < s0.len() {
                    assert(t[a] == s0[a]);
                } else {
                    assert(t[a].1 == DirStats { file_count: 0, dir_count: 0, depth });
                }
            }
        }
        let old_stats = self.entries[i].1;
        let new_stats = DirStats { file_count: old_stats.file_count + 1, ..old_stats };
        self.entries.set(i, (key.clone(), new_stats));
        assert(self.view() =~= t.update(i as int, (key@, new_stats)));
        assert forall|a: int, b: int| 0 <= a < b < self.view().len() implies #[trigger] self.view()[a].0
            != #[trigger] self.view()[b].0 by {
            assert(self.view()[a].0 == t[a].0);
            assert(self.view()[b].0 == t[b].0);
        }
        assert forall|a: int| 0 <= a < self.view().len() implies (#[trigger] self.view()[a]).1.file_count
            <= bound@ + 1 && self.view()[a].1.dir_count <= bound@ + 1 by {
            assert(t[a].1.file_count <= bound@);
        }
    }

    fn add_dir(&mut self, key: &String, depth: usize, bound: Ghost<int>)
        requires
            keys_distinct(old(self).view()),
            counts_at_most(old(self).view(), bound@),
            0 <= bound@ < usize::MAX,
        ensures
            final(self).view() == bump_dirs(old(self).view(), key@, depth),
            keys_distinct(final(self).view()),
            counts_at_most(final(self).view(), bound@ + 1),
    {
        let ghost s0 = self.view();
        let i = self.ensure(key, depth);
        let ghost t = self.view();
        assert(t[i as int] == (self.entries@[i as int].0@, self.entries@[i as int].1));
        assert(counts_at_most(t, bound@)) by {
            assert forall|a: int| 0 <= a < t.len() implies (#[trigger] t[a]).1.file_count <= bound@
                && t[a].1.dir_count <= bound@ by {
                if find_key(s0, key@, 0) >= 0 {
                    assert(t == s0);
                } else if a < s0.len() {
                    assert(t[a] == s0[a]);
                } else {
                    assert(t[a].1 == DirStats { file_count: 0, dir_count: 0, depth });
                }
            }
        }
        let old_stats = self.entries[i].1;
        let new_stats = DirStats { dir_count: old_stats.dir_count + 1, ..old_stats };
        self.entries.set(i, (key.clone(), new_stats));
        assert(self.view() =~= t.update(i as int, (key@, new_stats)));
        assert forall|a: int, b: int| 0 <= a < b < self.view().len() implies #[trigger] self.view()[a].0
            != #[trigger] self.view()[b].0 by {
            assert(self.view()[a].0 == t[a].0);
            assert(self.view()[b].0 == t[b].0);
        }
        assert forall|a: int| 0 <= a < self.view().len() implies (#[trigger] self.view()[a]).1.file_count
            <= bound@ + 1 && self.view()[a].1.dir_count <= bound@ + 1 by {
            assert(t[a].1.file_count <= bound@);
        }
    }
}

// ---------------------------------------------------------------------------------------------
// Scan results
// ---------------------------------------------------------------------------------------------

/// Result of a structure-aware scan.
#[derive(Debug)]
pub struct ScanResult {
    /// Every file found, as the walk reported it.
    pub files: Vec<String>,
    /// Statistics of each directory, keyed by the canonical text of its path.
    pub dir_stats: Vec<(String, DirStats)>,
    /// Allowlist violations found during the scan.
    pub allowlist_violations: Vec<StructureViolation>,
}

/// A scan result as plain values.
pub struct ScanView {
    pub files: Seq<Seq<char>>,
    pub stats: Seq<(Seq<char>, DirStats)>,
    pub violations: Seq<ViolationView>,
}

/// The views of a list of violations.
pub open spec fn violation_views(v: Seq<StructureViolation>) -> Seq<ViolationView> {
    v.map_values(|x: StructureViolation| x@)
}

impl View for ScanResult {
    type V = ScanView;

    open spec fn view(&self) -> ScanView {
        ScanView {
            files: crate::glob::strs(self.files@),
            stats: stats_view(self.dir_stats@),
            violations: violation_views(self.allowlist_violations@),
        }
    }
}

/// The empty scan result.
pub open spec fn empty_scan() -> ScanView {
    ScanView { files: Seq::empty(), stats: Seq::empty(), violations: Seq::empty() }
}

impl Default for ScanResult {
    fn default() -> (r: Self)
        ensures
            r@ == empty_scan(),
    {
        let r = ScanResult { files: Vec::new(), dir_stats: Vec::new(), allowlist_violations: Vec::new() };
        assert(r@.files =~= Seq::<Seq<char>>::empty());
        assert(r@.stats =~= Seq::<(Seq<char>, DirStats)>::empty());
        assert(r@.violations =~= Seq::<ViolationView>::empty());
        r
    }
}

impl ScanResult {
    /// The statistics of the directory at `path` (compared by components), if recorded.
    pub fn stats_of(&self, path: &str) -> (r: Option<DirStats>)
        ensures
            r == stats_for(self@.stats, canonical(path@)),
    {
        let key = canonical_path(path);
        let mut i: usize = 0;
        while i < self.dir_stats.len()
            invariant
                0 <= i <= self.dir_stats@.len(),
                key@ == canonical(path@),
                find_key(self@.stats, key@, 0) == find_key(self@.stats, key@, i as int),
            decreases self.dir_stats@.len() - i,
        {
            assert(self@.stats[i as int] == (self.dir_stats@[i as int].0@, self.dir_stats@[i as int].1));
            if self.dir_stats[i].0 == key {
                assert(self@.stats[i as int].0 == key@);
                assert(find_key(self@.stats, key@, i as int) == i);
                let r = self.dir_stats[i].1;
                assert(r == self@.stats[i as int].1);
                return Some(r);
            }
            i = i + 1;
        }
        None
    }
}

// ---------------------------------------------------------------------------------------------
// Structure checks of one entry
// ---------------------------------------------------------------------------------------------

/// The text that names the global rules in violations.
pub open spec fn global_rule() -> Seq<char> {
    seq!['g', 'l', 'o', 'b', 'a', 'l']
}

/// A violation as plain values.
pub open spec fn violation(path: Seq<char>, kind: ViolationKind, rule: Seq<char>) -> ViolationView {
    ViolationView { path, kind, rule }
}

/// What the rule that applies to a file's directory finds wrong with the file, on its logical
/// path `lf`: a deny match first, then a miss of the allowlist, then (on the file's own path)
/// a name that breaks the naming convention.
pub open spec fn rule_file_violation(rule: AllowlistRule, path: Seq<char>, lf: Seq<char>) -> Option<
    ViolationView,
> {
    match rule.file_denial(lf) {
        Some(x) => Some(violation(path, ViolationKind::DeniedFile(x), rule.scope_text())),
        None => if rule.has_allowlist_spec() && !rule.file_allowed(lf) {
            Some(violation(path, ViolationKind::DisallowedFile, rule.scope_text()))
        } else if !rule.name_conforms(path) && rule.naming_text() is Some {
            Some(
                violation(
                    path,
                    ViolationKind::NamingConvention(rule.naming_text()->0),
                    rule.scope_text(),
                ),
            )
        } else {
            None
        },
    }
}

/// The violation of a counted file at `path` whose parent directory is `parent`, if any. The
/// global allowlist, when there is one, is checked first; otherwise the global deny lists,
/// unless the applicable rule allowlists the file. Then the applicable rule is checked.
pub open spec fn file_violation(
    c: StructureScanConfig,
    pp: PathsView,
    path: Seq<char>,
    parent: Seq<char>,
) -> Option<ViolationView> {
    let lf = pp.logical_of(path);
    let ri = c.rule_index(pp.logical_of(parent));
    let by_rule = if ri >= 0 {
        rule_file_violation(c.allowlist_rules@[ri], path, lf)
    } else {
        None
    };
    if c.global_allow_extensions@.len() > 0 || c.global_allow_file_strs@.len() > 0 {
        if !c.file_globally_allowed(lf) {
            Some(violation(path, ViolationKind::DisallowedFile, global_rule()))
        } else {
            by_rule
        }
    } else {
        let overridden = ri >= 0 && c.allowlist_rules@[ri].has_allowlist_spec()
            && c.allowlist_rules@[ri].file_allowed(lf);
        if !overridden && c.file_global_denial(lf) is Some {
            Some(
                violation(
                    path,
                    ViolationKind::DeniedFile(c.file_global_denial(lf)->0),
                    global_rule(),
                ),
            )
        } else {
            by_rule
        }
    }
}

/// Index of the rule that applies to the directory at `path`: the rule of its logical parent,
/// none for the scan root.
pub open spec fn dir_rule_index(
    c: StructureScanConfig,
    pp: PathsView,
    spp: PathsView,
    path: Seq<char>,
) -> int {
    if normalized(spp.logical_of(path)).len() == 0 {
        -1
    } else {
        match parent_of(pp.logical_of(path)) {
            Some(par) => c.rule_index(par),
            None => -1,
        }
    }
}

/// The one-element sequence of `x`, or the empty sequence.
pub open spec fn opt_seq(x: Option<ViolationView>) -> Seq<ViolationView> {
    match x {
        Some(v) => seq![v],
        None => Seq::empty(),
    }
}

/// The global violations of the directory at `path` (none for the scan root).
pub open spec fn global_dir_violations(
    c: StructureScanConfig,
    pp: PathsView,
    spp: PathsView,
    path: Seq<char>,
) -> Seq<ViolationView> {
    let lp = pp.logical_of(path);
    let ri = dir_rule_index(c, pp, spp, path);
    if normalized(spp.logical_of(path)).len() == 0 {
        Seq::empty()
    } else if c.global_allow_dir_strs@.len() > 0 {
        if !any_glob_matches(c.global_allow_dirs@, file_name_or_empty(lp)) {
            seq![violation(path, ViolationKind::DisallowedDirectory, global_rule())]
        } else {
            Seq::empty()
        }
    } else if ri >= 0 && c.allowlist_rules@[ri].has_dir_allowlist_spec()
        && c.allowlist_rules@[ri].dir_allowed(lp) {
        Seq::empty()
    } else {
        opt_seq(
            match c.dir_global_denial(lp) {
                Some(x) => Some(violation(path, ViolationKind::DeniedDirectory(x), global_rule())),
                None => None,
            },
        ) + opt_seq(
            match c.dir_basename_denial(lp) {
                Some(x) => Some(violation(path, ViolationKind::DeniedDirectory(x), global_rule())),
                None => None,
            },
        )
    }
}

/// The violation that the applicable rule finds with the directory at `path`, if any.
pub open spec fn rule_dir_violation(
    c: StructureScanConfig,
    pp: PathsView,
    spp: PathsView,
    path: Seq<char>,
) -> Option<ViolationView> {
    let lp = pp.logical_of(path);
    let ri = dir_rule_index(c, pp, spp, path);
    if ri < 0 {
        None
    } else {
        let rule = c.allowlist_rules@[ri];
        if rule.has_dir_allowlist_spec() {
            if !rule.dir_allowed(lp) {
                Some(violation(path, ViolationKind::DisallowedDirectory, rule.scope_text()))
            } else {
                None
            }
        } else {
            match rule.dir_denial(lp) {
                Some(x) => Some(violation(path, ViolationKind::DeniedDirectory(x), rule.scope_text())),
                None => None,
            }
        }
    }
}

/// The violations of the directory at `path`: the global ones, then the rule's.
pub open spec fn dir_violations(
    c: StructureScanConfig,
    pp: PathsView,
    spp: PathsView,
    path: Seq<char>,
) -> Seq<ViolationView> {
    global_dir_violations(c, pp, spp, path) + opt_seq(rule_dir_violation(c, pp, spp, path))
}

/// The configuration behind an optional reference.
pub open spec fn config_of(c: Option<&StructureScanConfig>) -> Option<StructureScanConfig> {
    match c {
        Some(x) => Some(*x),
        None => None,
    }
}

/// The key under which a file at `path` is counted: the canonical text of its parent.
pub open spec fn parent_key(path: Seq<char>) -> Option<Seq<char>> {
    match parent_of(path) {
        Some(p) => Some(canonical(p)),
        None => None,
    }
}

/// The scan after the file at `path`, at `depth` below the scan root: skipped when the filter
/// or the configuration excludes it from the scan; listed when the filter keeps it; counted
/// in its parent's statistics and checked for violations unless count-excluded.
pub open spec fn file_step<F: FileFilter>(
    s: ScanView,
    filter: F,
    cfg: Option<StructureScanConfig>,
    pp: PathsView,
    spp: PathsView,
    mip: bool,
    path: Seq<char>,
    depth: usize,
) -> ScanView {
    let excluded = filter.scan_excludes(path) || (cfg matches Some(c) && c.scanner_excluded(
        path,
        false,
        spp,
        mip,
    ));
    if excluded {
        s
    } else {
        let files = if filter.includes(path) {
            s.files.push(path)
        } else {
            s.files
        };
        let counted = !(cfg matches Some(c) && c.count_excluded(path, pp)) && parent_key(path) is Some;
        if counted {
            let stats = bump_files(
                s.stats,
                parent_key(path)->0,
                if depth > 0 {
                    (depth - 1) as usize
                } else {
                    0
                },
            );
            let violations = match cfg {
                Some(c) => s.violations + opt_seq(file_violation(c, pp, path, parent_of(path)->0)),
                None => s.violations,
            };
            ScanView { files, stats, violations }
        } else {
            ScanView { files, stats: s.stats, violations: s.violations }
        }
    }
}

/// The scan after the directory at `path`, at `depth`: checked for violations, given an entry,
/// and counted in its parent's statistics unless it is the root or count-excluded.
pub open spec fn dir_step(
    s: ScanView,
    cfg: Option<StructureScanConfig>,
    pp: PathsView,
    spp: PathsView,
    path: Seq<char>,
    depth: usize,
) -> ScanView {
    let violations = match cfg {
        Some(c) => s.violations + dir_violations(c, pp, spp, path),
        None => s.violations,
    };
    let stats = with_dir(s.stats, canonical(path), depth);
    let counted = depth > 0 && !(cfg matches Some(c) && c.count_excluded(path, pp)) && parent_key(
        path,
    ) is Some;
    let stats = if counted {
        bump_dirs(stats, parent_key(path)->0, (depth - 1) as usize)
    } else {
        stats
    };
    ScanView { files: s.files, stats, violations }
}

/// What a walked entry is.
#[derive(Debug, Clone, Copy, PartialEq, Eq, Structural)]
pub enum EntryKind {
    File,
    Directory,
    Other,
}

/// One entry of a directory walk: its path, its depth below the walk's root, its kind.
#[derive(Debug, Clone)]
pub struct WalkEntry {
    pub path: String,
    pub depth: usize,
    pub kind: EntryKind,
}

/// The scan after one walked entry.
pub open spec fn walk_step<F: FileFilter>(
    s: ScanView,
    filter: F,
    cfg: Option<StructureScanConfig>,
    pp: PathsView,
    spp: PathsView,
    mip: bool,
    e: WalkEntry,
) -> ScanView {
    match e.kind {
        EntryKind::File => file_step(s, filter, cfg, pp, spp, mip, e.path@, e.depth),
        EntryKind::Directory => dir_step(s, cfg, pp, spp, e.path@, e.depth),
        EntryKind::Other => s,
    }
}

/// The scan of a whole walk, entry by entry.
pub open spec fn walk_scan<F: FileFilter>(
    filter: F,
    cfg: Option<StructureScanConfig>,
    pp: PathsView,
    spp: PathsView,
    mip: bool,
    entries: Seq<WalkEntry>,
) -> ScanView
    decreases entries.len(),
{
    if entries.len() == 0 {
        empty_scan()
    } else {
        walk_step(
            walk_scan(filter, cfg, pp, spp, mip, entries.drop_last()),
            filter,
            cfg,
            pp,
            spp,
            mip,
            entries.last(),
        )
    }
}


// ---------------------------------------------------------------------------------------------
// Structure checks, executed
// ---------------------------------------------------------------------------------------------

/// The text `global`.
fn global_text() -> (r: String)
    ensures
        r@ == global_rule(),
{
    let r = String::from_str("global");
    proof {
        reveal_strlit("global");
    }
    assert(r@ =~= global_rule());
    r
}

/// The violation found with a counted file at `path` whose parent directory is `parent`.
fn check_allowlist_violations(
    c: &StructureScanConfig,
    pp: &ProjectPaths,
    path: &str,
    parent: &str,
) -> (r: Option<StructureViolation>)
    requires
        c.wf(),
    ensures
        match r {
            Some(v) => file_violation(*c, pp@, path@, parent@) == Some(v@),
            None => file_violation(*c, pp@, path@, parent@) is None,
        },
{
    let logical_file = pp.logical(path);
    let logical_parent = pp.logical(parent);
    let matching_rule = c.find_matching_allowlist_rule_logical(logical_parent.as_str());
    proof {
        let k = c.rule_index(logical_parent@);
        crate::structure_config::lemma_rule_index_bounds(c.allowlist_rules@, logical_parent@, 0);
        if k >= 0 {
            assert(c.allowlist_rules@[k].wf());
        }
    }
    if c.has_global_file_allowlist() {
        if !c.file_matches_global_allow(logical_file.as_str()) {
            return Some(StructureViolation::disallowed_file(String::from_str(path), global_text()));
        }
    } else {
        let overridden = match matching_rule {
            Some(rule) => {
                assert(rule.wf());
                rule.has_allowlist() && rule.file_matches(logical_file.as_str())
            },
            None => false,
        };
        if !overridden {
            if let Some(matched) = c.file_matches_global_deny(logical_file.as_str()) {
                return Some(
                    StructureViolation::denied_file(String::from_str(path), global_text(), matched),
                );
            }
        }
    }
    let rule = match matching_rule {
        Some(rule) => rule,
        None => {
            return None;
        },
    };
    assert(rule.wf());
    if let Some(matched) = rule.file_matches_deny(logical_file.as_str()) {
        return Some(
            StructureViolation::denied_file(String::from_str(path), rule.scope_string(), matched),
        );
    }
    if rule.has_allowlist() && !rule.file_matches(logical_file.as_str()) {
        return Some(StructureViolation::disallowed_file(String::from_str(path), rule.scope_string()));
    }
    if !rule.filename_matches_naming_pattern(path) {
        if let Some(pattern) = rule.naming_pattern_string() {
            return Some(
                StructureViolation::naming_convention(
                    String::from_str(path),
                    rule.scope_string(),
                    pattern,
                ),
            );
        }
    }
    None
}

/// Whether a string is empty.
fn is_empty_text(s: &str) -> (r: bool)
    ensures
        r == (s@.len() == 0),
{
    crate::text::chars_of(s).len() == 0
}

/// The violations found with the directory at `path`.
fn dir_violations_of(
    c: &StructureScanConfig,
    pp: &ProjectPaths,
    spp: &ProjectPaths,
    path: &str,
) -> (r: Vec<StructureViolation>)
    requires
        c.wf(),
    ensures
        violation_views(r@) == dir_violations(*c, pp@, spp@, path@),
{
    let logical_path = pp.logical(path);
    let lp = logical_path.as_str();
    let is_configuration_root = is_empty_text(
        normalize_for_matching(spp.logical(path).as_str()).as_str(),
    );
    let ghost ri = dir_rule_index(*c, pp@, spp@, path@);
    let matching_rule: Option<&AllowlistRule> = if is_configuration_root {
        None
    } else {
        match parent(lp) {
            Some(par) => {
                let found = c.find_matching_allowlist_rule_logical(par.as_str());
                proof {
                    crate::structure_config::lemma_rule_index_bounds(
                        c.allowlist_rules@,
                        par@,
                        0,
                    );
                    if ri >= 0 {
                        assert(c.allowlist_rules@[ri].wf());
                    }
                }
                found
            },
            None => None,
        }
    };
    assert(match matching_rule {
        Some(rule) => ri >= 0 && *rule == c.allowlist_rules@[ri] && rule.wf(),
        None => ri == -1,
    });
    let mut global: Vec<StructureViolation> = Vec::new();
    if !is_configuration_root {
        if c.has_global_dir_allowlist() {
            if !c.dir_matches_global_allow(lp) {
                global.push(
                    StructureViolation::disallowed_directory(String::from_str(path), global_text()),
                );
            }
        } else {
            let overridden = match matching_rule {
                Some(rule) => rule.has_dir_allowlist() && rule.dir_matches(lp),
                None => false,
            };
            if !overridden {
                if let Some(pattern) = c.dir_matches_global_deny(lp) {
                    global.push(
                        StructureViolation::denied_directory(
                            String::from_str(path),
                            global_text(),
                            pattern,
                        ),
                    );
                }
                let ghost first = violation_views(global@);
                if let Some(pattern) = c.dir_matches_global_deny_basename(lp) {
                    global.push(
                        StructureViolation::denied_directory(
                            String::from_str(path),
                            global_text(),
                            pattern,
                        ),
                    );
                }
                assert(violation_views(global@) =~= first + opt_seq(
                    match c.dir_basename_denial(pp@.logical_of(path@)) {
                        Some(x) => Some(
                            violation(path@, ViolationKind::DeniedDirectory(x), global_rule()),
                        ),
                        None => None,
                    },
                ));
            }
        }
    }
    assert(violation_views(global@) =~= global_dir_violations(*c, pp@, spp@, path@));
    let mut out = global;
    let ghost g = violation_views(out@);
    if let Some(rule) = matching_rule {
        if rule.has_dir_allowlist() {
            if !rule.dir_matches(lp) {
                out.push(
                    StructureViolation::disallowed_directory(
                        String::from_str(path),
                        rule.scope_string(),
                    ),
                );
            }
        } else if let Some(pattern) = rule.dir_matches_deny(lp) {
            out.push(
                StructureViolation::denied_directory(
                    String::from_str(path),
                    rule.scope_string(),
                    pattern,
                ),
            );
        }
    }
    assert(violation_views(out@) =~= g + opt_seq(rule_dir_violation(*c, pp@, spp@, path@)));
    out
}

/// State of a structure-aware scan between two walked entries.
struct StructureScanState<'a> {
    files: Vec<String>,
    violations: Vec<StructureViolation>,
    table: StatsTable,
    structure_config: Option<&'a StructureScanConfig>,
    project_paths: ProjectPaths,
    scanner_project_paths: ProjectPaths,
    match_identity_path: bool,
}

impl<'a> StructureScanState<'a> {
    spec fn view(&self) -> ScanView {
        ScanView {
            files: crate::glob::strs(self.files@),
            stats: self.table.view(),
            violations: violation_views(self.violations@),
        }
    }

    spec fn inv(&self) -> bool {
        &&& keys_distinct(self.table.view())
        &&& (self.structure_config matches Some(c) ==> c.wf())
    }

    fn new(
        structure_config: Option<&'a StructureScanConfig>,
        project_paths: ProjectPaths,
        scanner_project_paths: ProjectPaths,
        match_identity_path: bool,
    ) -> (r: Self)
        requires
            structure_config matches Some(c) ==> c.wf(),
        ensures
            r.inv(),
            r.view() == empty_scan(),
            r.structure_config == structure_config,
            r.project_paths == project_paths,
            r.scanner_project_paths == scanner_project_paths,
            r.match_identity_path == match_identity_path,
    {
        let r = StructureScanState {
            files: Vec::new(),
            violations: Vec::new(),
            table: StatsTable { entries: Vec::new() },
            structure_config,
            project_paths,
            scanner_project_paths,
            match_identity_path,
        };
        assert(r.view().files =~= Seq::<Seq<char>>::empty());
        assert(r.view().stats =~= Seq::<(Seq<char>, DirStats)>::empty());
        assert(r.view().violations =~= Seq::<ViolationView>::empty());
        r
    }

    fn process_file<F: FileFilter>(&mut self, path: &str, depth: usize, filter: &F, bound: Ghost<int>)
        requires
            old(self).inv(),
            counts_at_most(old(self).view().stats, bound@),
            0 <= bound@ < usize::MAX,
        ensures
            final(self).inv(),
            final(self).view() == file_step(
                old(self).view(),
                *filter,
                config_of(old(self).structure_config),
                old(self).project_paths@,
                old(self).scanner_project_paths@,
                old(self).match_identity_path,
                path@,
                depth,
            ),
            counts_at_most(final(self).view().stats, bound@ + 1),
            final(self).structure_config == old(self).structure_config,
            final(self).project_paths == old(self).project_paths,
            final(self).scanner_project_paths == old(self).scanner_project_paths,
            final(self).match_identity_path == old(self).match_identity_path,
    {
        let ghost s0 = self.view();
        let excluded_by_config = match self.structure_config {
            Some(cfg) => cfg.is_scanner_excluded_with_namespaces(
                path,
                false,
                &self.scanner_project_paths,
                self.match_identity_path,
            ),
            None => false,
        };
        if filter.is_scanner_excluded(path) || excluded_by_config {
            return;
        }
        let is_count_excluded = match self.structure_config {
            Some(cfg) => cfg.is_count_excluded_with_project_paths(path, &self.project_paths),
            None => false,
        };
        if filter.should_include(path) {
            let ghost before = crate::glob::strs(self.files@);
            self.files.push(String::from_str(path));
            assert(crate::glob::strs(self.files@) =~= before.push(path@));
        }
        if !is_count_excluded {
            if let Some(parent_path) = parent(path) {
                let key = canonical_path(parent_path.as_str());
                let parent_depth = if depth > 0 {
                    depth - 1
                } else {
                    0
                };
                self.table.add_file(&key, parent_depth, bound);
                if let Some(cfg) = self.structure_config {
                    let ghost v0 = violation_views(self.violations@);
                    match check_allowlist_violations(cfg, &self.project_paths, path, parent_path.as_str()) {
                        Some(v) => {
                            self.violations.push(v);
                            assert(violation_views(self.violations@) =~= v0.push(v@));
                            assert(v0.push(v@) =~= v0 + seq![v@]);
                        },
                        None => {
                            assert(v0 + Seq::<ViolationView>::empty() =~= v0);
                        },
                    }
                }
            }
        }
    }

    fn process_directory(&mut self, path: &str, depth: usize, bound: Ghost<int>)
        requires
            old(self).inv(),
            counts_at_most(old(self).view().stats, bound@),
            0 <= bound@ < usize::MAX,
        ensures
            final(self).inv(),
            final(self).view() == dir_step(
                old(self).view(),
                config_of(old(self).structure_config),
                old(self).project_paths@,
                old(self).scanner_project_paths@,
                path@,
                depth,
            ),
            counts_at_most(final(self).view().stats, bound@ + 1),
            final(self).structure_config == old(self).structure_config,
            final(self).project_paths == old(self).project_paths,
            final(self).scanner_project_paths == old(self).scanner_project_paths,
            final(self).match_identity_path == old(self).match_identity_path,
    {
        if let Some(cfg) = self.structure_config {
            let mut found = dir_violations_of(
                cfg,
                &self.project_paths,
                &self.scanner_project_paths,
                path,
            );
            let ghost v0 = self.violations@;
            let ghost f0 = found@;
            self.violations.append(&mut found);
            assert(violation_views(self.violations@) =~= violation_views(v0) + violation_views(f0));
        }
        let is_count_excluded = match self.structure_config {
            Some(cfg) => cfg.is_count_excluded_with_project_paths(path, &self.project_paths),
            None => false,
        };
        let key = canonical_path(path);
        let _ = self.table.ensure(&key, depth);
        proof {
            assert forall|a: int| 0 <= a < self.table.view().len() implies (
            #[trigger] self.table.view()[a]).1.file_count <= bound@ && self.table.view()[a].1.dir_count
                <= bound@ by {
                let s0 = old(self).table.view();
                if find_key(s0, key@, 0) >= 0 {
                    assert(self.table.view() == s0);
                } else if a < s0.len() {
                    assert(self.table.view()[a] == s0[a]);
                }
            }
        }
        if depth > 0 && !is_count_excluded {
            if let Some(parent_path) = parent(path) {
                let parent_key_text = canonical_path(parent_path.as_str());
                self.table.add_dir(&parent_key_text, depth - 1, bound);
            }
        }
    }

    fn finalize(self) -> (r: ScanResult)
        ensures
            r@ == self.view(),
    {
        ScanResult {
            files: self.files,
            dir_stats: self.table.entries,
            allowlist_violations: self.violations,
        }
    }
}


// ---------------------------------------------------------------------------------------------
// Scanners
// ---------------------------------------------------------------------------------------------

/// The path contexts of a structure scan rooted at `root`, for a filter whose namespace is
/// `configured`: the namespace of the structure rules, that of the scanner exclusions, and
/// whether the scanner exclusions also match the paths as given. A rooted namespace serves for
/// both; without one, the rules keep the namespace of the walked paths and the exclusions are
/// read relative to the scan root.
pub open spec fn scan_context(configured: PathsView, root: Seq<char>, process_cwd: Seq<char>) -> (
    PathsView,
    PathsView,
    bool,
) {
    if configured.root is Some {
        (configured, configured, false)
    } else {
        (
            configured,
            PathsView {
                root: Some(
                    crate::project::render_spec(
                        crate::project::resolve_spec(
                            crate::project::resolve_spec(
                                crate::project::parse_spec(process_cwd),
                                crate::project::parse_spec(process_cwd),
                            ),
                            crate::project::parse_spec(root),
                        ),
                    ),
                ),
                cwd: Some(crate::project::lexical_absolute_spec(process_cwd, process_cwd)),
            },
            true,
        )
    }
}

/// The walked files that `filter` keeps, in walk order.
pub open spec fn selected_files<F: FileFilter>(filter: F, entries: Seq<WalkEntry>) -> Seq<Seq<char>>
    decreases entries.len(),
{
    if entries.len() == 0 {
        Seq::empty()
    } else {
        let rest = selected_files(filter, entries.drop_last());
        let e = entries.last();
        if e.kind == EntryKind::File && filter.includes(e.path@) {
            rest.push(e.path@)
        } else {
            rest
        }
    }
}

/// Whether a directory is pruned by the filter's predicate or by the configuration's.
#[derive(Debug)]
pub struct CombinedPruner {
    filter_pruner: DirectoryPruner,
    config_pruner: Option<DirectoryPruner>,
}

/// A combined pruner as plain values: the filter's pruner and the configuration's, if any.
pub struct CombinedView {
    pub filter_pruner: crate::filter::PrunerView,
    pub config_pruner: Option<crate::filter::PrunerView>,
}

/// Whether a pruner given as plain values removes the directory `path`.
pub open spec fn pruner_view_prunes(v: crate::filter::PrunerView, path: Seq<char>) -> bool {
    ||| crate::filter::prefixes_exclude(v.prefixes, normalized(v.paths.logical_of(path)))
    ||| (v.match_identity_path && crate::filter::prefixes_exclude(v.prefixes, normalized(path)))
}

impl View for CombinedPruner {
    type V = CombinedView;

    closed spec fn view(&self) -> CombinedView {
        CombinedView {
            filter_pruner: self.filter_pruner@,
            config_pruner: match self.config_pruner {
                Some(c) => Some(c@),
                None => None,
            },
        }
    }
}

impl CombinedPruner {
    /// Whether the directory at `path` is pruned with its subtree.
    pub open spec fn prunes_spec(&self, path: Seq<char>) -> bool {
        pruner_view_prunes(self@.filter_pruner, path) || (self@.config_pruner matches Some(c)
            && pruner_view_prunes(c, path))
    }

    /// Whether the directory at `path` is pruned with its subtree.
    pub fn prunes(&self, path: &str) -> (r: bool)
        ensures
            r == self.prunes_spec(path@),
    {
        self.filter_pruner.prunes(path) || match &self.config_pruner {
            Some(c) => c.prunes(path),
            None => false,
        }
    }
}

/// Scans directory trees, keeping the files that a filter accepts.
pub struct DirectoryScanner<F: FileFilter> {
    filter: F,
    use_gitignore: bool,
}

/// A directory scanner as plain values: its filter and whether walks honour `.gitignore`.
pub struct DirectoryScannerView<F> {
    pub filter: F,
    pub use_gitignore: bool,
}

impl<F: FileFilter> View for DirectoryScanner<F> {
    type V = DirectoryScannerView<F>;

    closed spec fn view(&self) -> DirectoryScannerView<F> {
        DirectoryScannerView { filter: self.filter, use_gitignore: self.use_gitignore }
    }
}

impl<F: FileFilter> DirectoryScanner<F> {
    /// The filter.
    pub open spec fn filter_spec(&self) -> F {
        self@.filter
    }

    /// Whether the walk honours `.gitignore` files.
    pub open spec fn gitignore_spec(&self) -> bool {
        self@.use_gitignore
    }

    /// A scanner that walks without `.gitignore` files.
    pub fn new(filter: F) -> (r: Self)
        ensures
            r.filter_spec() == filter,
            !r.gitignore_spec(),
    {
        DirectoryScanner { filter, use_gitignore: false }
    }

    /// A scanner that honours `.gitignore` files when `use_gitignore` is set.
    pub fn with_gitignore(filter: F, use_gitignore: bool) -> (r: Self)
        ensures
            r.filter_spec() == filter,
            r.gitignore_spec() == use_gitignore,
    {
        DirectoryScanner { filter, use_gitignore }
    }

    /// Whether the walk honours `.gitignore` files.
    pub fn uses_gitignore(&self) -> (r: bool)
        ensures
            r == self.gitignore_spec(),
    {
        self.use_gitignore
    }

    /// The filter.
    pub fn filter(&self) -> (r: &F)
        ensures
            *r == self.filter_spec(),
    {
        &self.filter
    }

    /// The walked files that the filter keeps, in walk order.
    pub fn select_files(&self, entries: &Vec<WalkEntry>) -> (r: Vec<String>)
        ensures
            crate::glob::strs(r@) == selected_files(self.filter_spec(), entries@),
    {
        let mut out: Vec<String> = Vec::new();
        let mut i: usize = 0;
        while i < entries.len()
            invariant
                0 <= i <= entries@.len(),
                crate::glob::strs(out@) == selected_files(
                    self.filter_spec(),
                    entries@.take(i as int),
                ),
            decreases entries@.len() - i,
        {
            assert(entries@.take(i + 1).drop_last() =~= entries@.take(i as int));
            assert(entries@.take(i + 1).last() == entries@[i as int]);
            let e = &entries[i];
            if e.kind == EntryKind::File && self.filter.should_include(e.path.as_str()) {
                let ghost before = crate::glob::strs(out@);
                out.push(e.path.clone());
                assert(crate::glob::strs(out@) =~= before.push(e.path@));
            }
            i = i + 1;
        }
        assert(entries@.take(entries@.len() as int) =~= entries@);
        out
    }

    fn structure_path_context(&self, root: &str, process_cwd: &str) -> (r: (
        ProjectPaths,
        ProjectPaths,
        bool,
    ))
        ensures
            (r.0@, r.1@, r.2) == scan_context(self.filter_spec().namespace()@, root@, process_cwd@),
    {
        let configured = self.filter.project_paths();
        if configured.is_rooted() {
            (configured.duplicate(), configured.duplicate(), false)
        } else {
            let rooted = ProjectPaths::rooted_with_cwd(root, process_cwd, process_cwd);
            (configured.duplicate(), rooted, true)
        }
    }

    /// The predicate for the directories that a structure scan rooted at `root` prunes: those
    /// the filter prunes, and those under a `/**` scanner exclusion of the configuration. Fails
    /// when such a prefix does not compile. `process_cwd` is the working directory of the
    /// process.
    pub fn combined_directory_pruner(
        &self,
        root: &str,
        structure_config: Option<&StructureScanConfig>,
        process_cwd: &str,
    ) -> (r: Result<CombinedPruner, SlocGuardError>)
        ensures
            ({
                let ctx = scan_context(self.filter_spec().namespace()@, root@, process_cwd@);
                match r {
                    Ok(p) => (structure_config matches Some(c) ==> crate::filter::dir_prefix_error(
                        crate::glob::strs(c.scanner_exclude_dir_names@),
                    ) is None) && forall|d: Seq<char>| #[trigger]
                        p.prunes_spec(d) == (self.filter_spec().prunes(d) || (structure_config matches Some(
                            c,
                        ) && c.scanner_excluded(d, true, ctx.1, ctx.2))),
                    Err(e) => structure_config matches Some(c) && e.pattern_text()
                        == crate::filter::dir_prefix_error(
                        crate::glob::strs(c.scanner_exclude_dir_names@),
                    ) && e.pattern_text() is Some,
                }
            }),
    {
        let (_, scanner_project_paths, match_identity_path) = self.structure_path_context(
            root,
            process_cwd,
        );
        let filter_pruner = self.filter.directory_pruner();
        let config_pruner = match structure_config {
            Some(cfg) => match cfg.scanner_exclude_directory_pruner(
                scanner_project_paths,
                match_identity_path,
            ) {
                Ok(p) => Some(p),
                Err(e) => {
                    return Err(e);
                },
            },
            None => None,
        };
        let p = CombinedPruner { filter_pruner, config_pruner };
        assert forall|d: Seq<char>| #[trigger] p.prunes_spec(d) == (p.filter_pruner.prunes_spec(d)
            || (p.config_pruner matches Some(c) && c.prunes_spec(d))) by {
            assert(pruner_view_prunes(p.filter_pruner@, d) == p.filter_pruner.prunes_spec(d));
            if let Some(c) = p.config_pruner {
                assert(pruner_view_prunes(c@, d) == c.prunes_spec(d));
            }
        }
        Ok(p)
    }

    /// The structure scan of a walk rooted at `root`: the walked entries (the caller walks
    /// the tree, pruning with `combined_directory_pruner`) are processed in order. Fails as
    /// `combined_directory_pruner` does.
    pub fn scan_with_structure(
        &self,
        root: &str,
        structure_config: Option<&StructureScanConfig>,
        entries: &Vec<WalkEntry>,
        process_cwd: &str,
    ) -> (r: Result<ScanResult, SlocGuardError>)
        requires
            structure_config matches Some(c) ==> c.wf(),
        ensures
            ({
                let ctx = scan_context(self.filter_spec().namespace()@, root@, process_cwd@);
                match r {
                    Ok(res) => (structure_config matches Some(c) ==> crate::filter::dir_prefix_error(
                        crate::glob::strs(c.scanner_exclude_dir_names@),
                    ) is None) && keys_distinct(res@.stats) && res@ == walk_scan(
                        self.filter_spec(),
                        config_of(structure_config),
                        ctx.0,
                        ctx.1,
                        ctx.2,
                        entries@,
                    ),
                    Err(e) => structure_config matches Some(c) && e.pattern_text()
                        == crate::filter::dir_prefix_error(
                        crate::glob::strs(c.scanner_exclude_dir_names@),
                    ) && e.pattern_text() is Some,
                }
            }),
    {
        match self.combined_directory_pruner(root, structure_config, process_cwd) {
            Ok(_) => {},
            Err(e) => {
                return Err(e);
            },
        }
        let (project_paths, scanner_project_paths, match_identity_path) =
            self.structure_path_context(root, process_cwd);
        let ghost pp = project_paths@;
        let ghost spp = scanner_project_paths@;
        let mut state = StructureScanState::new(
            structure_config,
            project_paths,
            scanner_project_paths,
            match_identity_path,
        );
        let mut i: usize = 0;
        while i < entries.len()
            invariant
                0 <= i <= entries@.len(),
                state.inv(),
                state.structure_config == structure_config,
                state.project_paths@ == pp,
                state.scanner_project_paths@ == spp,
                state.match_identity_path == match_identity_path,
                counts_at_most(state.view().stats, i as int),
                state.view() == walk_scan(
                    self.filter_spec(),
                    config_of(structure_config),
                    pp,
                    spp,
                    match_identity_path,
                    entries@.take(i as int),
                ),
            decreases entries@.len() - i,
        {
            assert(entries@.take(i + 1).drop_last() =~= entries@.take(i as int));
            assert(entries@.take(i + 1).last() == entries@[i as int]);
            let e = &entries[i];
            match e.kind {
                EntryKind::File => {
                    state.process_file(e.path.as_str(), e.depth, &self.filter, Ghost(i as int));
                },
                EntryKind::Directory => {
                    state.process_directory(e.path.as_str(), e.depth, Ghost(i as int));
                },
                EntryKind::Other => {},
            }
            i = i + 1;
        }
        assert(entries@.take(entries@.len() as int) =~= entries@);
        Ok(state.finalize())
    }
}


/// The walked files whose normalized path no glob of `globs` matches, in walk order.
pub open spec fn kept_files(globs: Seq<Seq<char>>, entries: Seq<WalkEntry>) -> Seq<Seq<char>>
    decreases entries.len(),
{
    if entries.len() == 0 {
        Seq::empty()
    } else {
        let rest = kept_files(globs, entries.drop_last());
        let e = entries.last();
        if e.kind == EntryKind::File && !any_glob_matches(globs, normalized(e.path@)) {
            rest.push(e.path@)
        } else {
            rest
        }
    }
}

/// The kept files of several walks, one walk after the other.
pub open spec fn kept_files_of_walks(globs: Seq<Seq<char>>, walks: Seq<Vec<WalkEntry>>) -> Seq<
    Seq<char>,
>
    decreases walks.len(),
{
    if walks.len() == 0 {
        Seq::empty()
    } else {
        kept_files_of_walks(globs, walks.drop_last()) + kept_files(globs, walks.last()@)
    }
}

proof fn lemma_selected_kept(filter: GlobFilter, globs: Seq<Seq<char>>, entries: Seq<WalkEntry>)
    requires
        forall|p: Seq<char>| #[trigger] filter.includes(p) == !any_glob_matches(globs, normalized(p)),
    ensures
        selected_files(filter, entries) == kept_files(globs, entries),
    decreases entries.len(),
{
    if entries.len() > 0 {
        lemma_selected_kept(filter, globs, entries.drop_last());
        assert(filter.includes(entries.last().path@) == !any_glob_matches(
            globs,
            normalized(entries.last().path@),
        ));
    }
}

/// Scans each walk (the caller walks every path of the scan, honouring `.gitignore` files when
/// `use_gitignore` is set) and keeps the files that no exclude pattern matches; extensions are
/// left to the caller. Fails when an exclude pattern does not compile.
pub fn scan_files(
    walks: &Vec<Vec<WalkEntry>>,
    exclude_patterns: &Vec<String>,
    use_gitignore: bool,
) -> (r: Result<Vec<String>, SlocGuardError>)
    ensures
        match r {
            Ok(files) => crate::filter::glob_filter_error(crate::glob::strs(exclude_patterns@))
                is None && crate::glob::strs(files@) == kept_files_of_walks(
                crate::filter::normalized_all(
                    crate::filter::normalized_all(crate::glob::strs(exclude_patterns@)),
                ),
                walks@,
            ),
            Err(e) => crate::filter::glob_filter_error(crate::glob::strs(exclude_patterns@))
                == e.pattern_text() && e.pattern_text() is Some,
        },
{
    let filter = match GlobFilter::new(Vec::new(), exclude_patterns) {
        Ok(f) => f,
        Err(e) => {
            return Err(e);
        },
    };
    let ghost globs = crate::filter::normalized_all(
        crate::filter::normalized_all(crate::glob::strs(exclude_patterns@)),
    );
    proof {
        assert forall|p: Seq<char>| #[trigger] filter.includes(p) == !any_glob_matches(
            globs,
            normalized(p),
        ) by {
            assert(filter.namespace().logical_of(p) == p);
        }
    }
    let scanner = if use_gitignore {
        DirectoryScanner::with_gitignore(filter, true)
    } else {
        DirectoryScanner::new(filter)
    };
    let mut all_files: Vec<String> = Vec::new();
    let mut i: usize = 0;
    while i < walks.len()
        invariant
            0 <= i <= walks@.len(),
            forall|p: Seq<char>| #[trigger]
                scanner.filter_spec().includes(p) == !any_glob_matches(globs, normalized(p)),
            crate::glob::strs(all_files@) == kept_files_of_walks(globs, walks@.take(i as int)),
        decreases walks@.len() - i,
    {
        assert(walks@.take(i + 1).drop_last() =~= walks@.take(i as int));
        assert(walks@.take(i + 1).last() == walks@[i as int]);
        let mut found = scanner.select_files(&walks[i]);
        proof {
            lemma_selected_kept(scanner.filter_spec(), globs, walks@[i as int]@);
        }
        let ghost before = all_files@;
        let ghost added = found@;
        all_files.append(&mut found);
        assert(crate::glob::strs(all_files@) =~= crate::glob::strs(before) + crate::glob::strs(
            added,
        ));
        i = i + 1;
    }
    assert(walks@.take(walks@.len() as int) =~= walks@);
    Ok(all_files)
}

/// Scans with a `GlobFilter` built from exclude patterns, honouring `.gitignore` files or not.
pub struct CompositeScanner {
    exclude_patterns: Vec<String>,
    /// Whether walks honour `.gitignore` files.
    pub use_gitignore: bool,
}

/// A composite scanner as plain values.
pub struct CompositeView {
    /// The exclude patterns.
    pub patterns: Seq<Seq<char>>,
    /// Whether walks honour `.gitignore` files.
    pub use_gitignore: bool,
}

impl View for CompositeScanner {
    type V = CompositeView;

    closed spec fn view(&self) -> CompositeView {
        CompositeView {
            patterns: crate::glob::strs(self.exclude_patterns@),
            use_gitignore: self.use_gitignore,
        }
    }
}

impl CompositeScanner {
    /// The exclude patterns.
    pub open spec fn patterns(&self) -> Seq<Seq<char>> {
        self@.patterns
    }

    /// Whether walks honour `.gitignore` files.
    pub open spec fn gitignore_spec(&self) -> bool {
        self@.use_gitignore
    }

    /// A scanner with the given exclude patterns and `.gitignore` setting.
    pub fn new(exclude_patterns: Vec<String>, use_gitignore: bool) -> (r: Self)
        ensures
            r.patterns() == crate::glob::strs(exclude_patterns@),
            r.gitignore_spec() == use_gitignore,
    {
        CompositeScanner { exclude_patterns, use_gitignore }
    }

    /// The directory scanner that does the work: a `GlobFilter` with no extension filter and
    /// the exclude patterns, with the `.gitignore` setting. Fails when a pattern does not
    /// compile.
    pub fn directory_scanner(&self) -> (r: Result<DirectoryScanner<GlobFilter>, SlocGuardError>)
        ensures
            match r {
                Ok(s) => crate::filter::glob_filter_error(self.patterns()) is None
                    && s.gitignore_spec() == self.gitignore_spec()
                    && s.filter_spec().extension_list().len() == 0
                    && s.filter_spec().exclude_globs() == crate::filter::normalized_all(
                    crate::filter::normalized_all(self.patterns()),
                ) && s.filter_spec().pruned_prefixes() == crate::filter::exclusion_prefixes(
                    crate::filter::normalized_all(self.patterns()),
                ) && s.filter_spec().namespace()@.root is None
                    && s.filter_spec().namespace()@.cwd is None,
                Err(e) => crate::filter::glob_filter_error(self.patterns()) == e.pattern_text()
                    && e.pattern_text() is Some,
            },
    {
        let filter = match GlobFilter::new(Vec::new(), &self.exclude_patterns) {
            Ok(f) => f,
            Err(e) => {
                return Err(e);
            },
        };
        assert(crate::glob::strs(Seq::<String>::empty()) =~= Seq::<Seq<char>>::empty());
        if self.use_gitignore {
            Ok(DirectoryScanner::with_gitignore(filter, true))
        } else {
            Ok(DirectoryScanner::new(filter))
        }
    }
}

// ---------------------------------------------------------------------------------------------
// Combining and rebasing results
// ---------------------------------------------------------------------------------------------

/// `s` with `key` set to `v`: the first entry with that key is replaced, or the entry added.
pub open spec fn put_stats(s: Seq<(Seq<char>, DirStats)>, key: Seq<char>, v: DirStats) -> Seq<
    (Seq<char>, DirStats),
> {
    if find_key(s, key, 0) >= 0 {
        s.update(find_key(s, key, 0), (key, v))
    } else {
        s.push((key, v))
    }
}

/// `s` with every entry of `more` put in turn.
pub open spec fn put_all(s: Seq<(Seq<char>, DirStats)>, more: Seq<(Seq<char>, DirStats)>) -> Seq<
    (Seq<char>, DirStats),
>
    decreases more.len(),
{
    if more.len() == 0 {
        s
    } else {
        put_stats(put_all(s, more.drop_last()), more.last().0, more.last().1)
    }
}

/// The statistics of `s` with each key mapped to the canonical text of its logical path in
/// `pp` and, in a rooted context, each depth replaced by the logical depth; entries that meet
/// under one key keep the last one.
pub open spec fn rebased_stats(s: Seq<(Seq<char>, DirStats)>, pp: PathsView) -> Seq<
    (Seq<char>, DirStats),
>
    decreases s.len(),
{
    if s.len() == 0 {
        Seq::empty()
    } else {
        let k = s.last().0;
        let v = s.last().1;
        let v2 = if pp.root is Some {
            DirStats {
                depth: crate::project::parse_spec(pp.logical_of(k)).comps.len() as usize,
                ..v
            }
        } else {
            v
        };
        put_stats(rebased_stats(s.drop_last(), pp), canonical(pp.logical_of(k)), v2)
    }
}

/// A violation moved to the logical path of its path.
pub open spec fn rebased_violation(v: ViolationView, pp: PathsView) -> ViolationView {
    ViolationView { path: pp.logical_of(v.path), ..v }
}

/// Sets `key` to `v` in a statistics list.
fn put_entry(entries: &mut Vec<(String, DirStats)>, key: String, v: DirStats)
    ensures
        stats_view(final(entries)@) == put_stats(stats_view(old(entries)@), key@, v),
{
    let ghost s0 = stats_view(entries@);
    let mut i: usize = 0;
    while i < entries.len()
        invariant
            0 <= i <= entries@.len(),
            stats_view(entries@) == s0,
            s0 == stats_view(old(entries)@),
            find_key(s0, key@, 0) == find_key(s0, key@, i as int),
        decreases entries@.len() - i,
    {
        assert(s0[i as int].0 == entries@[i as int].0@);
        if entries[i].0 == key {
            assert(find_key(s0, key@, i as int) == i);
            let ghost k = key@;
            entries.set(i, (key, v));
            assert(stats_view(entries@) =~= s0.update(i as int, (k, v)));
            return;
        }
        i = i + 1;
    }
    let ghost k = key@;
    entries.push((key, v));
    assert(stats_view(entries@) =~= s0.push((k, v)));
}

impl ScanResult {
    /// Adds the findings of another scan: its files and violations after these, its
    /// statistics put over these (a directory scanned twice keeps the later statistics).
    pub fn absorb(&mut self, other: ScanResult)
        ensures
            final(self)@.files == old(self)@.files + other@.files,
            final(self)@.violations == old(self)@.violations + other@.violations,
            final(self)@.stats == put_all(old(self)@.stats, other@.stats),
    {
        let ScanResult { files: mut files, dir_stats, allowlist_violations: mut violations } = other;
        let ghost f0 = self.files@;
        let ghost f1 = files@;
        self.files.append(&mut files);
        assert(crate::glob::strs(self.files@) =~= crate::glob::strs(f0) + crate::glob::strs(f1));
        let ghost v0 = self.allowlist_violations@;
        let ghost v1 = violations@;
        self.allowlist_violations.append(&mut violations);
        assert(violation_views(self.allowlist_violations@) =~= violation_views(v0)
            + violation_views(v1));
        let ghost s0 = stats_view(self.dir_stats@);
        let ghost more = stats_view(dir_stats@);
        let mut i: usize = 0;
        while i < dir_stats.len()
            invariant
                0 <= i <= dir_stats@.len(),
                more == stats_view(dir_stats@),
                stats_view(self.dir_stats@) == put_all(s0, more.take(i as int)),
                crate::glob::strs(self.files@) == crate::glob::strs(f0) + crate::glob::strs(f1),
                violation_views(self.allowlist_violations@) == violation_views(v0)
                    + violation_views(v1),
            decreases dir_stats@.len() - i,
        {
            assert(more.take(i + 1).drop_last() =~= more.take(i as int));
            assert(more.take(i + 1).last() == more[i as int]);
            put_entry(&mut self.dir_stats, dir_stats[i].0.clone(), dir_stats[i].1);
            i = i + 1;
        }
        assert(more.take(more.len() as int) =~= more);
    }

    /// Rebases every path onto the configuration root of `project_paths`: files and
    /// violations get their logical paths; statistics are keyed by logical path and, in a
    /// rooted context, get the logical depth.
    pub fn rebase_logical_paths(&mut self, project_paths: &ProjectPaths)
        ensures
            final(self)@.files == old(self)@.files.map_values(
                |p: Seq<char>| project_paths@.logical_of(p),
            ),
            final(self)@.violations == old(self)@.violations.map_values(
                |v: ViolationView| rebased_violation(v, project_paths@),
            ),
            final(self)@.stats == rebased_stats(old(self)@.stats, project_paths@),
    {
        let ghost pp = project_paths@;
        let ghost files0 = crate::glob::strs(self.files@);
        let mut files: Vec<String> = Vec::new();
        let mut i: usize = 0;
        while i < self.files.len()
            invariant
                0 <= i <= self.files@.len(),
                pp == project_paths@,
                files0 == crate::glob::strs(self.files@),
                crate::glob::strs(files@) == files0.take(i as int).map_values(
                    |p: Seq<char>| pp.logical_of(p),
                ),
            decreases self.files@.len() - i,
        {
            let ghost before = crate::glob::strs(files@);
            files.push(project_paths.logical(self.files[i].as_str()));
            assert(crate::glob::strs(files@) =~= before.push(pp.logical_of(files0[i as int])));
            assert(files0.take(i + 1).map_values(|p: Seq<char>| pp.logical_of(p)) =~= files0.take(
                i as int,
            ).map_values(|p: Seq<char>| pp.logical_of(p)).push(pp.logical_of(files0[i as int])));
            i = i + 1;
        }
        assert(files0.take(files0.len() as int) =~= files0);
        let ghost stats0 = stats_view(self.dir_stats@);
        let mut stats: Vec<(String, DirStats)> = Vec::new();
        let rooted = project_paths.config_root().is_some();
        let mut j: usize = 0;
        while j < self.dir_stats.len()
            invariant
                0 <= j <= self.dir_stats@.len(),
                pp == project_paths@,
                rooted == (pp.root is Some),
                stats0 == stats_view(self.dir_stats@),
                stats_view(stats@) == rebased_stats(stats0.take(j as int), pp),
            decreases self.dir_stats@.len() - j,
        {
            assert(stats0.take(j + 1).drop_last() =~= stats0.take(j as int));
            assert(stats0.take(j + 1).last() == stats0[j as int]);
            let path = self.dir_stats[j].0.as_str();
            let mut v = self.dir_stats[j].1;
            let logical = project_paths.logical(path);
            if rooted {
                v.depth = project_paths.logical_depth(path);
            }
            put_entry(&mut stats, canonical_path(logical.as_str()), v);
            j = j + 1;
        }
        assert(stats0.take(stats0.len() as int) =~= stats0);
        let ghost viol0 = violation_views(self.allowlist_violations@);
        let mut violations: Vec<StructureViolation> = Vec::new();
        let mut k: usize = 0;
        while k < self.allowlist_violations.len()
            invariant
                0 <= k <= self.allowlist_violations@.len(),
                pp == project_paths@,
                viol0 == violation_views(self.allowlist_violations@),
                violation_views(violations@) == viol0.take(k as int).map_values(
                    |v: ViolationView| rebased_violation(v, pp),
                ),
            decreases self.allowlist_violations@.len() - k,
        {
            let mut v = self.allowlist_violations[k].clone_violation();
            v.path = project_paths.logical(self.allowlist_violations[k].path.as_str());
            let ghost before = violation_views(violations@);
            violations.push(v);
            assert(violation_views(violations@) =~= before.push(
                rebased_violation(viol0[k as int], pp),
            ));
            assert(viol0.take(k + 1).map_values(|v: ViolationView| rebased_violation(v, pp))
                =~= viol0.take(k as int).map_values(|v: ViolationView| rebased_violation(v, pp)).push(
                rebased_violation(viol0[k as int], pp),
            ));
            k = k + 1;
        }
        assert(viol0.take(viol0.len() as int) =~= viol0);
        self.files = files;
        self.dir_stats = stats;
        self.allowlist_violations = violations;
    }
}


// ---------------------------------------------------------------------------------------------
// Laws of the structure scan
// ---------------------------------------------------------------------------------------------

/// Whether some entry of `s` has key `key`.
pub open spec fn has_key(s: Seq<(Seq<char>, DirStats)>, key: Seq<char>) -> bool {
    exists|i: int| 0 <= i < s.len() && #[trigger] s[i].0 == key
}

proof fn lemma_has_key_found(s: Seq<(Seq<char>, DirStats)>, key: Seq<char>)
    ensures
        has_key(s, key) <==> find_key(s, key, 0) >= 0,
{
    lemma_find_key_found(s, key, 0);
    if find_key(s, key, 0) >= 0 {
        let i = find_key(s, key, 0);
        assert(s[i].0 == key);
    }
}

proof fn lemma_steps_keep_keys(s: Seq<(Seq<char>, DirStats)>, key: Seq<char>, k: Seq<char>, d: usize)
    requires
        has_key(s, k),
    ensures
        has_key(with_dir(s, key, d), k),
        has_key(bump_files(s, key, d), k),
        has_key(bump_dirs(s, key, d), k),
        has_key(with_dir(s, key, d), key),
        has_key(bump_files(s, key, d), key),
        has_key(bump_dirs(s, key, d), key),
{
    let w = with_dir(s, key, d);
    let i = choose|i: int| 0 <= i < s.len() && #[trigger] s[i].0 == k;
    lemma_find_key_found(s, key, 0);
    assert(w[i].0 == k);
    lemma_find_key_found(w, key, 0);
    if find_key(s, key, 0) < 0 {
        assert(w[s.len() as int].0 == key);
        assert(find_key(w, key, 0) >= 0);
    }
    let t = find_key(w, key, 0);
    assert(w[t].0 == key);
    let bf = bump_files(s, key, d);
    let bd = bump_dirs(s, key, d);
    assert(bf[t].0 == key);
    assert(bd[t].0 == key);
    if i == t {
        assert(bf[i].0 == k);
        assert(bd[i].0 == k);
    } else {
        assert(bf[i] == w[i]);
        assert(bd[i] == w[i]);
    }
}

proof fn lemma_walk_step_keeps_keys<F: FileFilter>(
    s: ScanView,
    filter: F,
    cfg: Option<StructureScanConfig>,
    pp: PathsView,
    spp: PathsView,
    mip: bool,
    e: WalkEntry,
    k: Seq<char>,
)
    requires
        has_key(s.stats, k),
    ensures
        has_key(walk_step(s, filter, cfg, pp, spp, mip, e).stats, k),
        e.kind == EntryKind::Directory ==> has_key(
            walk_step(s, filter, cfg, pp, spp, mip, e).stats,
            canonical(e.path@),
        ),
{
    let key = canonical(e.path@);
    lemma_steps_keep_keys(s.stats, key, k, e.depth);
    let w = with_dir(s.stats, key, e.depth);
    match parent_key(e.path@) {
        Some(pk) => {
            if e.depth > 0 {
                lemma_steps_keep_keys(w, pk, k, (e.depth - 1) as usize);
                lemma_steps_keep_keys(w, pk, key, (e.depth - 1) as usize);
                lemma_steps_keep_keys(s.stats, pk, k, (e.depth - 1) as usize);
            }
            lemma_steps_keep_keys(s.stats, pk, k, 0);
        },
        None => {},
    }
}

/// Every directory of a walk has statistics in the result of the scan (keys compared as
/// canonical paths).
pub proof fn law_walked_directories_have_stats<F: FileFilter>(
    filter: F,
    cfg: Option<StructureScanConfig>,
    pp: PathsView,
    spp: PathsView,
    mip: bool,
    entries: Seq<WalkEntry>,
)
    ensures
        forall|j: int|
            0 <= j < entries.len() && (#[trigger] entries[j]).kind == EntryKind::Directory
                ==> stats_for(
                walk_scan(filter, cfg, pp, spp, mip, entries).stats,
                canonical(entries[j].path@),
            ) is Some,
    decreases entries.len(),
{
    if entries.len() > 0 {
        let prev = entries.drop_last();
        law_walked_directories_have_stats(filter, cfg, pp, spp, mip, prev);
        let s0 = walk_scan(filter, cfg, pp, spp, mip, prev);
        let s1 = walk_scan(filter, cfg, pp, spp, mip, entries);
        assert forall|j: int|
            0 <= j < entries.len() && (#[trigger] entries[j]).kind
                == EntryKind::Directory implies stats_for(s1.stats, canonical(entries[j].path@))
            is Some by {
            let k = canonical(entries[j].path@);
            if j < entries.len() - 1 {
                assert(prev[j] == entries[j]);
                lemma_has_key_found(s0.stats, k);
                lemma_walk_step_keeps_keys(s0, filter, cfg, pp, spp, mip, entries.last(), k);
            } else {
                let e = entries.last();
                assert(s1 == walk_step(s0, filter, cfg, pp, spp, mip, e));
                let w = with_dir(s0.stats, k, e.depth);
                lemma_find_key_found(s0.stats, k, 0);
                lemma_has_key_found(w, k);
                lemma_with_dir_has(s0.stats, k, e.depth);
                match parent_key(e.path@) {
                    Some(pk) => {
                        if e.depth > 0 {
                            lemma_steps_keep_keys(w, pk, k, (e.depth - 1) as usize);
                        }
                    },
                    None => {},
                }
            }
            lemma_has_key_found(s1.stats, k);
        }
    }
}

proof fn lemma_with_dir_has(s: Seq<(Seq<char>, DirStats)>, key: Seq<char>, d: usize)
    ensures
        has_key(with_dir(s, key, d), key),
{
    let w = with_dir(s, key, d);
    lemma_find_key_found(s, key, 0);
    if find_key(s, key, 0) >= 0 {
        let i = find_key(s, key, 0);
        assert(w[i].0 == key);
    } else {
        assert(w[s.len() as int].0 == key);
    }
}

/// Every file a scan lists was walked as a file, is kept by the filter, and is excluded from
/// the scan neither by the filter nor by the configuration.
pub proof fn law_listed_files_were_walked_and_kept<F: FileFilter>(
    filter: F,
    cfg: Option<StructureScanConfig>,
    pp: PathsView,
    spp: PathsView,
    mip: bool,
    entries: Seq<WalkEntry>,
)
    ensures
        forall|i: int|
            0 <= i < walk_scan(filter, cfg, pp, spp, mip, entries).files.len() ==> {
                let f = #[trigger] walk_scan(filter, cfg, pp, spp, mip, entries).files[i];
                &&& exists|j: int|
                    0 <= j < entries.len() && (#[trigger] entries[j]).kind == EntryKind::File
                        && entries[j].path@ == f
                &&& filter.includes(f)
                &&& !filter.scan_excludes(f)
                &&& !(cfg matches Some(c) && c.scanner_excluded(f, false, spp, mip))
            },
    decreases entries.len(),
{
    if entries.len() > 0 {
        let prev = entries.drop_last();
        law_listed_files_were_walked_and_kept(filter, cfg, pp, spp, mip, prev);
        let s0 = walk_scan(filter, cfg, pp, spp, mip, prev);
        let s1 = walk_scan(filter, cfg, pp, spp, mip, entries);
        let e = entries.last();
        assert forall|i: int| 0 <= i < s1.files.len() implies {
            let f = #[trigger] s1.files[i];
            &&& exists|j: int|
                0 <= j < entries.len() && (#[trigger] entries[j]).kind == EntryKind::File
                    && entries[j].path@ == f
            &&& filter.includes(f)
            &&& !filter.scan_excludes(f)
            &&& !(cfg matches Some(c) && c.scanner_excluded(f, false, spp, mip))
        } by {
            if i < s0.files.len() {
                assert(s1.files[i] == s0.files[i]);
                let f = s0.files[i];
                let j = choose|j: int|
                    0 <= j < prev.len() && (#[trigger] prev[j]).kind == EntryKind::File
                        && prev[j].path@ == f;
                assert(entries[j] == prev[j]);
            } else {
                assert(s1.files[i] == e.path@);
                assert(entries[entries.len() - 1] == e);
            }
        }
    }
}


/// A file excluded from the scan, by the filter or by the configuration's scanner exclusions,
/// leaves no trace: it is not listed, not counted, and not checked for violations.
pub proof fn law_excluded_files_leave_no_trace<F: FileFilter>(
    s: ScanView,
    filter: F,
    cfg: Option<StructureScanConfig>,
    pp: PathsView,
    spp: PathsView,
    mip: bool,
    e: WalkEntry,
)
    requires
        e.kind == EntryKind::File,
        filter.scan_excludes(e.path@) || (cfg matches Some(c) && c.scanner_excluded(
            e.path@,
            false,
            spp,
            mip,
        )),
    ensures
        walk_step(s, filter, cfg, pp, spp, mip, e) == s,
{
}

/// A count-excluded entry adds to no directory's counts: a file leaves the statistics as they
/// were, and a directory only gets its own (empty) entry.
pub proof fn law_count_excluded_entries_are_not_counted<F: FileFilter>(
    s: ScanView,
    filter: F,
    c: StructureScanConfig,
    pp: PathsView,
    spp: PathsView,
    mip: bool,
    e: WalkEntry,
)
    requires
        c.count_excluded(e.path@, pp),
    ensures
        e.kind == EntryKind::File ==> walk_step(s, filter, Some(c), pp, spp, mip, e).stats
            == s.stats,
        e.kind == EntryKind::Directory ==> walk_step(s, filter, Some(c), pp, spp, mip, e).stats
            == with_dir(s.stats, canonical(e.path@), e.depth),
{
}


/// Whether the rule has a naming pattern (written and compiled) that the name of the file at
/// `path` does not match.
pub open spec fn name_breaks_pattern(rule: crate::allowlist::RuleView, path: Seq<char>) -> bool {
    match (rule.naming_regex, rule.naming_text) {
        (Some(re), Some(_)) => !crate::glob::regex_matches(re, file_name_or_empty(path)),
        _ => false,
    }
}

/// A file that its rule neither denies nor keeps out by an allowlist (the rule has none, or the
/// file is on it) breaks the rule exactly when the rule has a naming pattern that the file's
/// name does not match; the violation then names the pattern and the rule's scope. Whether
/// the rule has an allowlist does not change this.
pub proof fn law_naming_checked_for_allowed_files(rule: AllowlistRule, path: Seq<char>, lf: Seq<char>)
    requires
        rule.file_denial(lf) is None,
        !rule.has_allowlist_spec() || rule.file_allowed(lf),
    ensures
        rule_file_violation(rule, path, lf) == if name_breaks_pattern(rule@, path) {
            Some(
                ViolationView {
                    path,
                    kind: ViolationKind::NamingConvention(rule@.naming_text->0),
                    rule: rule@.scope,
                },
            )
        } else {
            None
        },
{
}

/// Under a global allowlist, a counted file is reported against the global rule exactly when
/// neither its dotted extension is a global allowed extension nor its name matches a global
/// allowed file pattern; otherwise only its directory's rule can report it.
pub proof fn law_global_allowlist_decides_first(
    c: StructureScanConfig,
    pp: PathsView,
    path: Seq<char>,
    parent: Seq<char>,
)
    requires
        c.global_allow_extensions@.len() > 0 || c.global_allow_file_strs@.len() > 0,
    ensures
        ({
            let lf = pp.logical_of(path);
            let allowed = (exists|i: int|
                0 <= i < c.global_allow_files@.len() && crate::glob::glob_matches(
                    #[trigger] c.global_allow_files@[i],
                    file_name_or_empty(lf),
                )) || (extension_of(lf) matches Some(e) && exists|i: int|
                0 <= i < c.global_allow_extensions@.len()
                    && (#[trigger] c.global_allow_extensions@[i])@ == seq!['.'] + e);
            let ri = c.rule_index(pp.logical_of(parent));
            file_violation(c, pp, path, parent) == if !allowed {
                Some(violation(path, ViolationKind::DisallowedFile, global_rule()))
            } else if ri >= 0 {
                rule_file_violation(c.allowlist_rules@[ri], path, lf)
            } else {
                None
            }
        }),
{
    crate::structure_config::law_global_allow_is_extension_or_name(c, pp.logical_of(path));
}

} // verus!
