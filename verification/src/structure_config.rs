//! Configuration of structure-aware scanning: counting and scanner exclusions, per-scope
//! allowlist rules, and the global allow and deny lists.
use vstd::prelude::*;

use crate::allowlist::{
    contains_string, dotted_extension, dotted_extension_of, extension_listed, get_cloned,
    get_text, opt_text, AllowlistRule,
};
use crate::error::SlocGuardError;
use crate::filter::{
    dir_prefix_error, exclusion_prefixes, normalize_scanner_exclude_patterns, normalized_all,
    DirectoryExclusions, DirectoryPruner,
};
use crate::glob::{any_glob_matches, first_invalid, first_matching, glob_matches, strs, GlobList};
use crate::logical_glob::{
    build_logical_path_glob_set, first_invalid_logical, logical_hits_from,
    matching_logical_path_globs,
};
use crate::path_utils::{extension_of, file_name_or_default, file_name_or_empty};
use crate::project::{normalize_for_matching, normalized, PathsView, ProjectPaths};
use crate::text::{chars_of, string_from_range};

verus! {

/// Whether a deny pattern addresses directories only (it ends with `/`).
pub open spec fn is_dir_pattern(p: Seq<char>) -> bool {
    p.len() > 0 && p.last() == '/'
}

/// The directory-only deny patterns among `ps`, in order.
pub open spec fn dir_patterns(ps: Seq<Seq<char>>) -> Seq<Seq<char>>
    decreases ps.len(),
{
    if ps.len() == 0 {
        Seq::empty()
    } else if is_dir_pattern(ps.last()) {
        dir_patterns(ps.drop_last()).push(ps.last())
    } else {
        dir_patterns(ps.drop_last())
    }
}

/// The file deny patterns among `ps` (those not ending with `/`), in order.
pub open spec fn file_patterns(ps: Seq<Seq<char>>) -> Seq<Seq<char>>
    decreases ps.len(),
{
    if ps.len() == 0 {
        Seq::empty()
    } else if is_dir_pattern(ps.last()) {
        file_patterns(ps.drop_last())
    } else {
        file_patterns(ps.drop_last()).push(ps.last())
    }
}

/// `p` without all of its trailing `/` characters.
pub open spec fn trim_slashes(p: Seq<char>) -> Seq<char>
    decreases p.len(),
{
    if p.len() > 0 && p.last() == '/' {
        trim_slashes(p.drop_last())
    } else {
        p
    }
}

/// Why the logical patterns cannot be compiled into a set, if they cannot.
#[verifier::opaque]
pub open spec fn first_bad_logical(ps: Seq<Seq<char>>) -> Option<Seq<char>> {
    crate::logical_glob::logical_list_error(ps, "combined logical path patterns"@)
}

/// Why the patterns cannot be compiled into a set, if they cannot.
#[verifier::opaque]
pub open spec fn first_bad_plain(ps: Seq<Seq<char>>) -> Option<Seq<char>> {
    crate::glob::glob_list_error(ps, "combined patterns"@)
}

/// `a`, or `b` when `a` is `None`.
pub open spec fn or_else(a: Option<Seq<char>>, b: Option<Seq<char>>) -> Option<Seq<char>> {
    match a {
        Some(x) => Some(x),
        None => b,
    }
}

/// Index of the first rule from `from` on whose scope contains the directory `dir`, or -1.
pub open spec fn first_rule_in_scope(rules: Seq<AllowlistRule>, dir: Seq<char>, from: int) -> int
    decreases rules.len() - from,
{
    if from < 0 || from >= rules.len() {
        -1
    } else if rules[from].in_scope(dir) {
        from
    } else {
        first_rule_in_scope(rules, dir, from + 1)
    }
}

/// The index of the first rule in scope lies in the list, or is -1.
pub proof fn lemma_rule_index_bounds(rules: Seq<AllowlistRule>, dir: Seq<char>, from: int)
    requires
        0 <= from,
    ensures
        -1 <= first_rule_in_scope(rules, dir, from) < rules.len(),
        first_rule_in_scope(rules, dir, from) >= 0 ==> first_rule_in_scope(rules, dir, from)
            >= from,
    decreases rules.len() - from,
{
    if from < rules.len() {
        lemma_rule_index_bounds(rules, dir, from + 1);
    }
}

/// Configuration for structure-aware scanning.
pub struct StructureScanConfig {
    /// Patterns of entries not counted in directory statistics, in the logical namespace.
    pub count_exclude: GlobList,
    /// The count-exclude patterns as written (they decide basename against path matching).
    pub count_exclude_pattern_strs: Vec<String>,
    /// Scanner exclude patterns (entries skipped entirely), in the logical namespace.
    pub scanner_exclude: GlobList,
    /// Directory prefixes of the terminal `/**` scanner exclusions, relative to the
    /// configuration root, so that `core/vendor/**` cannot prune `apps/vendor`.
    pub scanner_exclude_dir_names: Vec<String>,
    /// Per-scope allowlist rules; the first whose scope matches a directory applies.
    pub allowlist_rules: Vec<AllowlistRule>,
    /// Globally allowed extensions (`.rs`); with allowed file patterns, allowlist mode.
    pub global_allow_extensions: Vec<String>,
    /// Globally allowed file-name patterns.
    pub global_allow_files: GlobList,
    /// The globally allowed file-name patterns as written.
    pub global_allow_file_strs: Vec<String>,
    /// Globally allowed directory-name patterns.
    pub global_allow_dirs: GlobList,
    /// The globally allowed directory-name patterns as written.
    pub global_allow_dir_strs: Vec<String>,
    /// Globally denied extensions (`.exe`).
    pub global_deny_extensions: Vec<String>,
    /// Globally denied file patterns, in the logical namespace.
    pub global_deny_patterns: GlobList,
    /// The globally denied file patterns as written.
    pub global_deny_pattern_strs: Vec<String>,
    /// Globally denied file-name patterns.
    pub global_deny_files: GlobList,
    /// The globally denied file-name patterns as written.
    pub global_deny_file_strs: Vec<String>,
    /// Globally denied directory-name patterns (`deny_dirs`).
    pub global_deny_dir_basenames: GlobList,
    /// The globally denied directory-name patterns as written.
    pub global_deny_dir_basename_strs: Vec<String>,
    /// Directory-only deny patterns (written with a trailing `/`), without that `/`, in the
    /// logical namespace.
    pub global_deny_dir_patterns: GlobList,
    /// The directory-only deny patterns as written, trailing `/` included.
    pub global_deny_dir_pattern_strs: Vec<String>,
}

/// Which list setting of a configuration builder a call changes.
pub enum ConfigList {
    CountExclude,
    ScannerExclude,
    GlobalAllowExtensions,
    GlobalAllowFiles,
    GlobalAllowDirs,
    GlobalDenyExtensions,
    GlobalDenyPatterns,
    GlobalDenyFiles,
    GlobalDenyDirs,
}

/// Builder for `StructureScanConfig`.
pub struct StructureScanConfigBuilder {
    count_exclude_patterns: Vec<String>,
    scanner_exclude_patterns: Vec<String>,
    allowlist_rules: Vec<AllowlistRule>,
    global_allow_extensions: Vec<String>,
    global_allow_files: Vec<String>,
    global_allow_dirs: Vec<String>,
    global_deny_extensions: Vec<String>,
    global_deny_patterns: Vec<String>,
    global_deny_files: Vec<String>,
    global_deny_dirs: Vec<String>,
}

/// The settings of a configuration builder as plain values.
pub struct ConfigBuilderView {
    pub count_exclude: Seq<Seq<char>>,
    pub scanner_exclude: Seq<Seq<char>>,
    pub allowlist_rules: Seq<AllowlistRule>,
    pub global_allow_extensions: Seq<Seq<char>>,
    pub global_allow_files: Seq<Seq<char>>,
    pub global_allow_dirs: Seq<Seq<char>>,
    pub global_deny_extensions: Seq<Seq<char>>,
    pub global_deny_patterns: Seq<Seq<char>>,
    pub global_deny_files: Seq<Seq<char>>,
    pub global_deny_dirs: Seq<Seq<char>>,
}

impl View for StructureScanConfigBuilder {
    type V = ConfigBuilderView;

    closed spec fn view(&self) -> ConfigBuilderView {
        ConfigBuilderView {
            count_exclude: strs(self.count_exclude_patterns@),
            scanner_exclude: strs(self.scanner_exclude_patterns@),
            allowlist_rules: self.allowlist_rules@,
            global_allow_extensions: strs(self.global_allow_extensions@),
            global_allow_files: strs(self.global_allow_files@),
            global_allow_dirs: strs(self.global_allow_dirs@),
            global_deny_extensions: strs(self.global_deny_extensions@),
            global_deny_patterns: strs(self.global_deny_patterns@),
            global_deny_files: strs(self.global_deny_files@),
            global_deny_dirs: strs(self.global_deny_dirs@),
        }
    }
}

impl StructureScanConfigBuilder {
    /// One of the list settings.
    pub open spec fn list(&self, f: ConfigList) -> Seq<Seq<char>> {
        match f {
            ConfigList::CountExclude => self@.count_exclude,
            ConfigList::ScannerExclude => self@.scanner_exclude,
            ConfigList::GlobalAllowExtensions => self@.global_allow_extensions,
            ConfigList::GlobalAllowFiles => self@.global_allow_files,
            ConfigList::GlobalAllowDirs => self@.global_allow_dirs,
            ConfigList::GlobalDenyExtensions => self@.global_deny_extensions,
            ConfigList::GlobalDenyPatterns => self@.global_deny_patterns,
            ConfigList::GlobalDenyFiles => self@.global_deny_files,
            ConfigList::GlobalDenyDirs => self@.global_deny_dirs,
        }
    }

    /// The allowlist rules.
    pub open spec fn rules(&self) -> Seq<AllowlistRule> {
        self@.allowlist_rules
    }

    /// Whether `other` has the settings of `self` except possibly list `f`.
    pub open spec fn same_except(&self, other: Self, f: ConfigList) -> bool {
        &&& other.rules() == self.rules()
        &&& forall|g: ConfigList| g != f ==> #[trigger] other.list(g) == self.list(g)
    }

    /// A builder with every setting empty.
    pub fn new() -> (r: Self)
        ensures
            forall|f: ConfigList| #[trigger] r.list(f) == Seq::<Seq<char>>::empty(),
            r.rules() == Seq::<AllowlistRule>::empty(),
    {
        let r = StructureScanConfigBuilder {
            count_exclude_patterns: Vec::new(),
            scanner_exclude_patterns: Vec::new(),
            allowlist_rules: Vec::new(),
            global_allow_extensions: Vec::new(),
            global_allow_files: Vec::new(),
            global_allow_dirs: Vec::new(),
            global_deny_extensions: Vec::new(),
            global_deny_patterns: Vec::new(),
            global_deny_files: Vec::new(),
            global_deny_dirs: Vec::new(),
        };
        assert forall|f: ConfigList| #[trigger] r.list(f) == Seq::<Seq<char>>::empty() by {
            assert(strs(Seq::<String>::empty()) =~= Seq::<Seq<char>>::empty());
        }
        r
    }

    /// Set the patterns of entries not counted in directory statistics.
    pub fn count_exclude(self, patterns: Vec<String>) -> (r: Self)
        ensures
            self.same_except(r, ConfigList::CountExclude),
            r.list(ConfigList::CountExclude) == strs(patterns@),
    {
        let mut r = self;
        r.count_exclude_patterns = patterns;
        r
    }

    /// Set the scanner exclude patterns (entries skipped entirely).
    pub fn scanner_exclude(self, patterns: Vec<String>) -> (r: Self)
        ensures
            self.same_except(r, ConfigList::ScannerExclude),
            r.list(ConfigList::ScannerExclude) == strs(patterns@),
    {
        let mut r = self;
        r.scanner_exclude_patterns = patterns;
        r
    }

    /// Set the per-scope allowlist rules.
    pub fn allowlist_rules(self, rules: Vec<AllowlistRule>) -> (r: Self)
        ensures
            r.rules() == rules@,
            forall|g: ConfigList| #[trigger] r.list(g) == self.list(g),
    {
        let mut r = self;
        r.allowlist_rules = rules;
        r
    }

    /// Set the globally allowed extensions (`.rs`).
    pub fn global_allow_extensions(self, extensions: Vec<String>) -> (r: Self)
        ensures
            self.same_except(r, ConfigList::GlobalAllowExtensions),
            r.list(ConfigList::GlobalAllowExtensions) == strs(extensions@),
    {
        let mut r = self;
        r.global_allow_extensions = extensions;
        r
    }

    /// Set the globally allowed file-name patterns.
    pub fn global_allow_files(self, patterns: Vec<String>) -> (r: Self)
        ensures
            self.same_except(r, ConfigList::GlobalAllowFiles),
            r.list(ConfigList::GlobalAllowFiles) == strs(patterns@),
    {
        let mut r = self;
        r.global_allow_files = patterns;
        r
    }

    /// Set the globally allowed directory-name patterns.
    pub fn global_allow_dirs(self, patterns: Vec<String>) -> (r: Self)
        ensures
            self.same_except(r, ConfigList::GlobalAllowDirs),
            r.list(ConfigList::GlobalAllowDirs) == strs(patterns@),
    {
        let mut r = self;
        r.global_allow_dirs = patterns;
        r
    }

    /// Set the globally denied extensions (`.exe`).
    pub fn global_deny_extensions(self, extensions: Vec<String>) -> (r: Self)
        ensures
            self.same_except(r, ConfigList::GlobalDenyExtensions),
            r.list(ConfigList::GlobalDenyExtensions) == strs(extensions@),
    {
        let mut r = self;
        r.global_deny_extensions = extensions;
        r
    }

    /// Set the globally denied patterns; those ending with `/` address directories only.
    pub fn global_deny_patterns(self, patterns: Vec<String>) -> (r: Self)
        ensures
            self.same_except(r, ConfigList::GlobalDenyPatterns),
            r.list(ConfigList::GlobalDenyPatterns) == strs(patterns@),
    {
        let mut r = self;
        r.global_deny_patterns = patterns;
        r
    }

    /// Set the globally denied file-name patterns.
    pub fn global_deny_files(self, patterns: Vec<String>) -> (r: Self)
        ensures
            self.same_except(r, ConfigList::GlobalDenyFiles),
            r.list(ConfigList::GlobalDenyFiles) == strs(patterns@),
    {
        let mut r = self;
        r.global_deny_files = patterns;
        r
    }

    /// Set the globally denied directory-name patterns.
    pub fn global_deny_dirs(self, patterns: Vec<String>) -> (r: Self)
        ensures
            self.same_except(r, ConfigList::GlobalDenyDirs),
            r.list(ConfigList::GlobalDenyDirs) == strs(patterns@),
    {
        let mut r = self;
        r.global_deny_dirs = patterns;
        r
    }

    /// The first pattern of the scanning settings that does not compile: the count
    /// excludes, then the normalized scanner excludes, then their `/**` directory prefixes.
    pub open spec fn scanning_error(&self) -> Option<Seq<char>> {
        let se = normalized_all(self.list(ConfigList::ScannerExclude));
        or_else(
            first_bad_logical(self.list(ConfigList::CountExclude)),
            or_else(first_bad_logical(se), dir_prefix_error(exclusion_prefixes(se))),
        )
    }

    /// The first pattern of the global lists that does not compile: the allowed file and
    /// directory names, the denied file patterns, the denied directory patterns (trailing `/`
    /// removed), then the denied file and directory names.
    pub open spec fn global_error(&self) -> Option<Seq<char>> {
        let dp = self.list(ConfigList::GlobalDenyPatterns);
        or_else(
            first_bad_plain(self.list(ConfigList::GlobalAllowFiles)),
            or_else(
                first_bad_plain(self.list(ConfigList::GlobalAllowDirs)),
                or_else(
                    first_bad_logical(file_patterns(dp)),
                    or_else(
                        first_bad_logical(dir_patterns(dp).map_values(|p: Seq<char>| trim_slashes(p))),
                        or_else(
                            first_bad_plain(self.list(ConfigList::GlobalDenyFiles)),
                            first_bad_plain(self.list(ConfigList::GlobalDenyDirs)),
                        ),
                    ),
                ),
            ),
        )
    }

    /// Why building fails, if it does: the first pattern that does not compile, the scanning
    /// settings checked before the global lists.
    pub open spec fn config_error(&self) -> Option<Seq<char>> {
        or_else(self.scanning_error(), self.global_error())
    }

    /// Whether `c` holds exactly the settings of this builder, compiled.
    pub open spec fn built(&self, c: StructureScanConfig) -> bool {
        let ce = self.list(ConfigList::CountExclude);
        let se = normalized_all(self.list(ConfigList::ScannerExclude));
        let dp = self.list(ConfigList::GlobalDenyPatterns);
        &&& c.wf()
        &&& c.count_exclude@ == normalized_all(ce)
        &&& strs(c.count_exclude_pattern_strs@) == ce
        &&& c.scanner_exclude@ == normalized_all(se)
        &&& strs(c.scanner_exclude_dir_names@) == exclusion_prefixes(se)
        &&& c.allowlist_rules@ == self.rules()
        &&& strs(c.global_allow_extensions@) == self.list(ConfigList::GlobalAllowExtensions)
        &&& c.global_allow_files@ == self.list(ConfigList::GlobalAllowFiles)
        &&& strs(c.global_allow_file_strs@) == self.list(ConfigList::GlobalAllowFiles)
        &&& c.global_allow_dirs@ == self.list(ConfigList::GlobalAllowDirs)
        &&& strs(c.global_allow_dir_strs@) == self.list(ConfigList::GlobalAllowDirs)
        &&& strs(c.global_deny_extensions@) == self.list(ConfigList::GlobalDenyExtensions)
        &&& c.global_deny_patterns@ == normalized_all(file_patterns(dp))
        &&& strs(c.global_deny_pattern_strs@) == file_patterns(dp)
        &&& c.global_deny_files@ == self.list(ConfigList::GlobalDenyFiles)
        &&& strs(c.global_deny_file_strs@) == self.list(ConfigList::GlobalDenyFiles)
        &&& c.global_deny_dir_basenames@ == self.list(ConfigList::GlobalDenyDirs)
        &&& strs(c.global_deny_dir_basename_strs@) == self.list(ConfigList::GlobalDenyDirs)
        &&& c.global_deny_dir_patterns@ == normalized_all(
            dir_patterns(dp).map_values(|p: Seq<char>| trim_slashes(p)),
        )
        &&& strs(c.global_deny_dir_pattern_strs@) == dir_patterns(dp)
    }

    /// Build the configuration; fails with `InvalidPattern` naming the pattern that
    /// `config_error` gives.
    pub fn build(self) -> (r: Result<StructureScanConfig, SlocGuardError>)
        requires
            forall|i: int| 0 <= i < self.rules().len() ==> (#[trigger] self.rules()[i]).wf(),
        ensures
            match r {
                Ok(c) => self.config_error() is None && self.built(c),
                Err(e) => self.config_error() is Some && e.pattern_text() == self.config_error(),
            },
    {
        StructureScanConfig::from_builder(self)
    }
}

impl Default for StructureScanConfigBuilder {
    fn default() -> (r: Self)
        ensures
            forall|f: ConfigList| #[trigger] r.list(f) == Seq::<Seq<char>>::empty(),
            r.rules() == Seq::<AllowlistRule>::empty(),
    {
        Self::new()
    }
}

/// The directory-only deny patterns of `ps` as written, and the file deny patterns.
fn partition_deny_patterns(ps: &Vec<String>) -> (r: (Vec<String>, Vec<String>))
    ensures
        strs(r.0@) == dir_patterns(strs(ps@)),
        strs(r.1@) == file_patterns(strs(ps@)),
{
    let mut dirs: Vec<String> = Vec::new();
    let mut files: Vec<String> = Vec::new();
    let mut i: usize = 0;
    while i < ps.len()
        invariant
            0 <= i <= ps.len(),
            strs(dirs@) == dir_patterns(strs(ps@).take(i as int)),
            strs(files@) == file_patterns(strs(ps@).take(i as int)),
        decreases ps.len() - i,
    {
        let ghost d0 = strs(dirs@);
        let ghost f0 = strs(files@);
        assert(strs(ps@).take(i + 1).drop_last() =~= strs(ps@).take(i as int));
        assert(strs(ps@).take(i + 1).last() == ps@[i as int]@);
        let v = chars_of(ps[i].as_str());
        if v.len() > 0 && v[v.len() - 1] == '/' {
            dirs.push(ps[i].clone());
            assert(strs(dirs@) =~= d0.push(ps@[i as int]@));
        } else {
            files.push(ps[i].clone());
            assert(strs(files@) =~= f0.push(ps@[i as int]@));
        }
        i = i + 1;
    }
    assert(strs(ps@).take(ps.len() as int) =~= strs(ps@));
    (dirs, files)
}

/// `p` without all of its trailing `/` characters.
fn trim_slashes_exec(p: &str) -> (r: String)
    ensures
        r@ == trim_slashes(p@),
{
    let v = chars_of(p);
    let mut k = v.len();
    assert(v@.take(k as int) =~= v@);
    while k > 0 && v[k - 1] == '/'
        invariant
            0 <= k <= v.len(),
            trim_slashes(v@) == trim_slashes(v@.take(k as int)),
        decreases k,
    {
        assert(v@.take(k as int).drop_last() =~= v@.take(k - 1));
        k = k - 1;
    }
    assert(v@.take(k as int) =~= v@.subrange(0, k as int));
    string_from_range(&v, 0, k)
}

/// Each pattern with its trailing `/` characters removed.
fn trim_all_slashes(ps: &Vec<String>) -> (r: Vec<String>)
    ensures
        strs(r@) == strs(ps@).map_values(|p: Seq<char>| trim_slashes(p)),
{
    let mut out: Vec<String> = Vec::new();
    let mut i: usize = 0;
    while i < ps.len()
        invariant
            0 <= i <= ps.len(),
            strs(out@) == strs(ps@).take(i as int).map_values(|p: Seq<char>| trim_slashes(p)),
        decreases ps.len() - i,
    {
        let ghost before = strs(out@);
        out.push(trim_slashes_exec(ps[i].as_str()));
        assert(strs(out@) =~= before.push(trim_slashes(ps@[i as int]@)));
        assert(strs(ps@).take(i + 1).map_values(|p: Seq<char>| trim_slashes(p)) =~= strs(
            ps@,
        ).take(i as int).map_values(|p: Seq<char>| trim_slashes(p)).push(
            trim_slashes(ps@[i as int]@),
        ));
        i = i + 1;
    }
    assert(strs(ps@).take(ps.len() as int) =~= strs(ps@));
    out
}

fn build_glob_set(ps: &Vec<String>) -> (r: Result<GlobList, SlocGuardError>)
    ensures
        match r {
            Ok(g) => g.wf() && g@ == strs(ps@) && first_bad_plain(strs(ps@)) is None,
            Err(e) => first_bad_plain(strs(ps@)) is Some && e.pattern_text() == first_bad_plain(
                strs(ps@),
            ),
        },
{
    reveal(first_bad_plain);
    GlobList::build(ps, "combined patterns")
}

fn logical_globs(ps: &Vec<String>) -> (r: Result<GlobList, SlocGuardError>)
    ensures
        match r {
            Ok(g) => g.wf() && g@ == normalized_all(strs(ps@)) && first_bad_logical(strs(ps@)) is None,
            Err(e) => first_bad_logical(strs(ps@)) is Some && e.pattern_text() == first_bad_logical(
                strs(ps@),
            ),
        },
{
    reveal(first_bad_logical);
    build_logical_path_glob_set(ps)
}

/// A copy of a list of strings.
fn copy_strings(v: &Vec<String>) -> (r: Vec<String>)
    ensures
        r@ == v@,
{
    let r = v.clone();
    assert(r@ =~= v@) by {
        assert forall|i: int| 0 <= i < r@.len() implies r@[i] == v@[i] by {
            assert(cloned::<String>(v[i], r[i]));
        }
    }
    r
}

impl StructureScanConfig {
    /// Every compiled list is valid, every rule is well formed, and the directory prefixes of
    /// the scanner exclusions compile.
    pub open spec fn wf(&self) -> bool {
        &&& self.count_exclude.wf()
        &&& self.scanner_exclude.wf()
        &&& dir_prefix_error(strs(self.scanner_exclude_dir_names@)) is None
        &&& forall|i: int|
            0 <= i < self.allowlist_rules@.len() ==> (#[trigger] self.allowlist_rules@[i]).wf()
        &&& self.global_allow_files.wf()
        &&& self.global_allow_dirs.wf()
        &&& self.global_deny_patterns.wf()
        &&& self.global_deny_files.wf()
        &&& self.global_deny_dir_basenames.wf()
        &&& self.global_deny_dir_patterns.wf()
    }

    /// Whether the configuration is well formed (always so for a built one).
    pub fn is_valid(&self) -> (r: bool)
        ensures
            r == self.wf(),
    {
        if !(self.count_exclude.is_valid() && self.scanner_exclude.is_valid()
            && self.global_allow_files.is_valid() && self.global_allow_dirs.is_valid()
            && self.global_deny_patterns.is_valid() && self.global_deny_files.is_valid()
            && self.global_deny_dir_basenames.is_valid() && self.global_deny_dir_patterns.is_valid()) {
            return false;
        }
        match DirectoryExclusions::from_prefixes(copy_strings(&self.scanner_exclude_dir_names)) {
            Ok(_) => {},
            Err(_) => {
                return false;
            },
        }
        let mut i: usize = 0;
        while i < self.allowlist_rules.len()
            invariant
                0 <= i <= self.allowlist_rules@.len(),
                forall|j: int| 0 <= j < i ==> (#[trigger] self.allowlist_rules@[j]).wf(),
            decreases self.allowlist_rules@.len() - i,
        {
            if !self.allowlist_rules[i].is_valid() {
                return false;
            }
            i = i + 1;
        }
        true
    }

    /// A builder with every setting empty.
    pub fn builder() -> (r: StructureScanConfigBuilder)
        ensures
            forall|f: ConfigList| #[trigger] r.list(f) == Seq::<Seq<char>>::empty(),
            r.rules() == Seq::<AllowlistRule>::empty(),
    {
        StructureScanConfigBuilder::new()
    }

    fn compile_scanning(b: &StructureScanConfigBuilder) -> (r: Result<
        (GlobList, Vec<String>, GlobList, Vec<String>),
        SlocGuardError,
    >)
        ensures
            ({
                let ce = b.list(ConfigList::CountExclude);
                let se = normalized_all(b.list(ConfigList::ScannerExclude));
                match r {
                    Ok((count, count_strs, scanner, dir_names)) => b.scanning_error() is None
                        && count.wf() && count@ == normalized_all(ce) && strs(count_strs@) == ce
                        && scanner.wf() && scanner@ == normalized_all(se) && strs(dir_names@)
                        == exclusion_prefixes(se) && dir_prefix_error(strs(dir_names@)) is None,
                    Err(e) => b.scanning_error() is Some && e.pattern_text()
                        == b.scanning_error(),
                }
            }),
    {
        reveal(first_bad_logical);
        let count_exclude = match logical_globs(&b.count_exclude_patterns) {
            Ok(g) => g,
            Err(e) => {
                return Err(e);
            },
        };
        let count_exclude_pattern_strs = copy_strings(&b.count_exclude_patterns);
        let scanner_exclude_patterns = normalize_scanner_exclude_patterns(
            &b.scanner_exclude_patterns,
        );
        let scanner_exclude = match logical_globs(&scanner_exclude_patterns) {
            Ok(g) => g,
            Err(e) => {
                return Err(e);
            },
        };
        let directories = match DirectoryExclusions::from_patterns(&scanner_exclude_patterns) {
            Ok(d) => d,
            Err(e) => {
                return Err(e);
            },
        };
        let scanner_exclude_dir_names = copy_strings(directories.prefixes());
        Ok((count_exclude, count_exclude_pattern_strs, scanner_exclude, scanner_exclude_dir_names))
    }

    fn compile_globals(b: &StructureScanConfigBuilder) -> (r: Result<
        (GlobList, GlobList, Vec<String>, Vec<String>, GlobList, GlobList, GlobList, GlobList),
        SlocGuardError,
    >)
        ensures
            ({
                let dp = b.list(ConfigList::GlobalDenyPatterns);
                match r {
                    Ok((af, ad, dir_strs, file_strs, deny_patterns, deny_dir_patterns, df, dd)) =>
                    b.global_error() is None && af.wf() && af@ == b.list(
                        ConfigList::GlobalAllowFiles,
                    ) && ad.wf() && ad@ == b.list(ConfigList::GlobalAllowDirs) && strs(dir_strs@)
                        == dir_patterns(dp) && strs(file_strs@) == file_patterns(dp)
                        && deny_patterns.wf() && deny_patterns@ == normalized_all(
                        file_patterns(dp),
                    ) && deny_dir_patterns.wf() && deny_dir_patterns@ == normalized_all(
                        dir_patterns(dp).map_values(|p: Seq<char>| trim_slashes(p)),
                    ) && df.wf() && df@ == b.list(ConfigList::GlobalDenyFiles) && dd.wf() && dd@
                        == b.list(ConfigList::GlobalDenyDirs),
                    Err(e) => b.global_error() is Some && e.pattern_text() == b.global_error(),
                }
            }),
    {
        let global_allow_files = match build_glob_set(&b.global_allow_files) {
            Ok(g) => g,
            Err(e) => {
                return Err(e);
            },
        };
        let global_allow_dirs = match build_glob_set(&b.global_allow_dirs) {
            Ok(g) => g,
            Err(e) => {
                return Err(e);
            },
        };
        let (dir_pattern_strs, file_pattern_strs) = partition_deny_patterns(
            &b.global_deny_patterns,
        );
        let dir_patterns_for_glob = trim_all_slashes(&dir_pattern_strs);
        let global_deny_patterns = match logical_globs(&file_pattern_strs) {
            Ok(g) => g,
            Err(e) => {
                return Err(e);
            },
        };
        let global_deny_dir_patterns = match logical_globs(&dir_patterns_for_glob) {
            Ok(g) => g,
            Err(e) => {
                return Err(e);
            },
        };
        let global_deny_files = match build_glob_set(&b.global_deny_files) {
            Ok(g) => g,
            Err(e) => {
                return Err(e);
            },
        };
        let global_deny_dir_basenames = match build_glob_set(&b.global_deny_dirs) {
            Ok(g) => g,
            Err(e) => {
                return Err(e);
            },
        };
        Ok(
            (
                global_allow_files,
                global_allow_dirs,
                dir_pattern_strs,
                file_pattern_strs,
                global_deny_patterns,
                global_deny_dir_patterns,
                global_deny_files,
                global_deny_dir_basenames,
            ),
        )
    }

    fn from_builder(b: StructureScanConfigBuilder) -> (r: Result<Self, SlocGuardError>)
        requires
            forall|i: int| 0 <= i < b.rules().len() ==> (#[trigger] b.rules()[i]).wf(),
        ensures
            match r {
                Ok(c) => b.config_error() is None && b.built(c),
                Err(e) => b.config_error() is Some && e.pattern_text() == b.config_error(),
            },
    {
        let ghost rules = b.rules();
        let (count_exclude, count_exclude_pattern_strs, scanner_exclude, scanner_exclude_dir_names) =
            match Self::compile_scanning(&b) {
            Ok(t) => t,
            Err(e) => {
                return Err(e);
            },
        };
        let (
            global_allow_files,
            global_allow_dirs,
            global_deny_dir_pattern_strs,
            global_deny_pattern_strs,
            global_deny_patterns,
            global_deny_dir_patterns,
            global_deny_files,
            global_deny_dir_basenames,
        ) = match Self::compile_globals(&b) {
            Ok(t) => t,
            Err(e) => {
                return Err(e);
            },
        };
        let c = StructureScanConfig {
            count_exclude,
            count_exclude_pattern_strs,
            scanner_exclude,
            scanner_exclude_dir_names,
            allowlist_rules: b.allowlist_rules,
            global_allow_extensions: b.global_allow_extensions,
            global_allow_files,
            global_allow_file_strs: b.global_allow_files,
            global_allow_dirs,
            global_allow_dir_strs: b.global_allow_dirs,
            global_deny_extensions: b.global_deny_extensions,
            global_deny_patterns,
            global_deny_pattern_strs,
            global_deny_files,
            global_deny_file_strs: b.global_deny_files,
            global_deny_dir_basenames,
            global_deny_dir_basename_strs: b.global_deny_dirs,
            global_deny_dir_patterns,
            global_deny_dir_pattern_strs,
        };
        assert forall|i: int| 0 <= i < c.allowlist_rules@.len() implies (
        #[trigger] c.allowlist_rules@[i]).wf() by {
            assert(c.allowlist_rules@[i] == rules[i]);
        }
        Ok(c)
    }

    /// Whether a file (`is_dir` false) or directory is excluded from the scan: its logical path
    /// in `project_paths`, or with `match_identity_path` its path as given, matches a scanner
    /// exclusion; directories match the `/**` prefixes (none when a prefix does not compile).
    pub open spec fn scanner_excluded(
        &self,
        path: Seq<char>,
        is_dir: bool,
        project_paths: PathsView,
        match_identity_path: bool,
    ) -> bool {
        let logical = normalized(project_paths.logical_of(path));
        if is_dir {
            let globs = normalized_all(strs(self.scanner_exclude_dir_names@));
            dir_prefix_error(strs(self.scanner_exclude_dir_names@)) is None && (any_glob_matches(
                globs,
                logical,
            ) || (match_identity_path && any_glob_matches(globs, normalized(path))))
        } else {
            any_glob_matches(self.scanner_exclude@, logical) || (match_identity_path
                && any_glob_matches(self.scanner_exclude@, normalized(path)))
        }
    }

    /// Scanner exclusion in the namespace of `project_paths` only.
    pub fn is_scanner_excluded_with_project_paths(
        &self,
        path: &str,
        is_dir: bool,
        project_paths: &ProjectPaths,
    ) -> (r: bool)
        requires
            self.scanner_exclude.wf(),
        ensures
            r == self.scanner_excluded(path@, is_dir, project_paths@, false),
    {
        self.is_scanner_excluded_with_namespaces(path, is_dir, project_paths, false)
    }

    /// Scanner exclusion in the namespace of `project_paths`, and also of the path as given
    /// when `match_identity_path` is set.
    pub fn is_scanner_excluded_with_namespaces(
        &self,
        path: &str,
        is_dir: bool,
        project_paths: &ProjectPaths,
        match_identity_path: bool,
    ) -> (r: bool)
        requires
            self.scanner_exclude.wf(),
        ensures
            r == self.scanner_excluded(path@, is_dir, project_paths@, match_identity_path),
    {
        let logical = normalize_for_matching(project_paths.logical(path).as_str());
        if is_dir {
            return match DirectoryExclusions::from_prefixes(
                copy_strings(&self.scanner_exclude_dir_names),
            ) {
                Ok(exclusions) => exclusions.is_match(logical.as_str()) || (match_identity_path
                    && exclusions.is_match(normalize_for_matching(path).as_str())),
                Err(_) => false,
            };
        }
        self.scanner_exclude.is_match(logical.as_str()) || (match_identity_path
            && self.scanner_exclude.is_match(normalize_for_matching(path).as_str()))
    }

    /// The pruner for the directories that the scanner exclusions remove with their subtree;
    /// fails when a directory prefix does not compile.
    pub fn scanner_exclude_directory_pruner(
        &self,
        project_paths: ProjectPaths,
        match_identity_path: bool,
    ) -> (r: Result<DirectoryPruner, SlocGuardError>)
        ensures
            match r {
                Ok(p) => dir_prefix_error(strs(self.scanner_exclude_dir_names@)) is None
                    && forall|d: Seq<char>| #[trigger]
                    p.prunes_spec(d) == self.scanner_excluded(
                        d,
                        true,
                        project_paths@,
                        match_identity_path,
                    ),
                Err(e) => dir_prefix_error(strs(self.scanner_exclude_dir_names@)) is Some
                    && e.pattern_text() == dir_prefix_error(strs(self.scanner_exclude_dir_names@)),
            },
    {
        proof {
            reveal(first_bad_logical);
        }
        match DirectoryExclusions::from_prefixes(copy_strings(&self.scanner_exclude_dir_names)) {
            Ok(exclusions) => Ok(DirectoryPruner::new(exclusions, project_paths, match_identity_path)),
            Err(e) => Err(e),
        }
    }

    /// Whether an entry is left out of the directory statistics: some count-exclude pattern
    /// matches its logical path (unqualified patterns also its name).
    pub open spec fn count_excluded(&self, path: Seq<char>, project_paths: PathsView) -> bool {
        logical_hits_from(
            self.count_exclude@,
            strs(self.count_exclude_pattern_strs@),
            normalized(project_paths.logical_of(path)),
            0,
        ).len() > 0
    }

    /// Whether an entry is left out of the directory statistics.
    pub fn is_count_excluded_with_project_paths(&self, path: &str, project_paths: &ProjectPaths) -> (r:
        bool)
        requires
            self.count_exclude.wf(),
        ensures
            r == self.count_excluded(path@, project_paths@),
    {
        let logical = normalize_for_matching(project_paths.logical(path).as_str());
        matching_logical_path_globs(
            &self.count_exclude,
            &self.count_exclude_pattern_strs,
            logical.as_str(),
        ).len() > 0
    }

    /// Index of the rule that applies to the directory `dir`: the first whose scope contains
    /// it, or -1.
    pub open spec fn rule_index(&self, dir: Seq<char>) -> int {
        first_rule_in_scope(self.allowlist_rules@, dir, 0)
    }

    /// The first allowlist rule whose scope contains the directory `dir`.
    pub fn find_matching_allowlist_rule(&self, dir: &str) -> (r: Option<&AllowlistRule>)
        requires
            self.wf(),
        ensures
            match r {
                Some(rule) => 0 <= self.rule_index(dir@) && *rule == self.allowlist_rules@[self.rule_index(
                    dir@,
                )],
                None => self.rule_index(dir@) == -1,
            },
    {
        let logical = ProjectPaths::unrooted().logical(dir);
        self.find_matching_allowlist_rule_logical(logical.as_str())
    }

    /// The first allowlist rule whose scope contains the logical directory `logical_dir`.
    pub fn find_matching_allowlist_rule_logical(&self, logical_dir: &str) -> (r: Option<
        &AllowlistRule,
    >)
        requires
            self.wf(),
        ensures
            match r {
                Some(rule) => 0 <= self.rule_index(logical_dir@) && *rule
                    == self.allowlist_rules@[self.rule_index(logical_dir@)],
                None => self.rule_index(logical_dir@) == -1,
            },
    {
        let mut i: usize = 0;
        while i < self.allowlist_rules.len()
            invariant
                0 <= i <= self.allowlist_rules@.len(),
                self.wf(),
                self.rule_index(logical_dir@) == first_rule_in_scope(
                    self.allowlist_rules@,
                    logical_dir@,
                    i as int,
                ),
            decreases self.allowlist_rules@.len() - i,
        {
            let rule = &self.allowlist_rules[i];
            assert(rule.wf());
            if rule.matches_directory(logical_dir) {
                return Some(rule);
            }
            i = i + 1;
        }
        None
    }

    /// Whether files are checked against a global allowlist.
    pub fn has_global_file_allowlist(&self) -> (r: bool)
        ensures
            r == (self.global_allow_extensions@.len() > 0 || self.global_allow_file_strs@.len()
                > 0),
    {
        self.global_allow_extensions.len() > 0 || self.global_allow_file_strs.len() > 0
    }

    /// Whether directories are checked against a global allowlist.
    pub fn has_global_dir_allowlist(&self) -> (r: bool)
        ensures
            r == (self.global_allow_dir_strs@.len() > 0),
    {
        self.global_allow_dir_strs.len() > 0
    }

    /// Whether a file is globally allowed: its extension is allowed or its name matches an
    /// allowed file pattern.
    pub open spec fn file_globally_allowed(&self, p: Seq<char>) -> bool {
        extension_listed(strs(self.global_allow_extensions@), p) || any_glob_matches(
            self.global_allow_files@,
            file_name_or_empty(p),
        )
    }

    /// Whether a file is globally allowed.
    pub fn file_matches_global_allow(&self, file_path: &str) -> (r: bool)
        requires
            self.wf(),
        ensures
            r == self.file_globally_allowed(file_path@),
    {
        if self.global_allow_extensions.len() > 0 {
            if let Some(ext) = dotted_extension_of(file_path) {
                if contains_string(&self.global_allow_extensions, &ext) {
                    return true;
                }
            }
        }
        let name = file_name_or_default(file_path);
        self.global_allow_files.is_match(name.as_str())
    }

    /// Whether a directory's name matches a globally allowed directory pattern.
    pub fn dir_matches_global_allow(&self, dir_path: &str) -> (r: bool)
        requires
            self.wf(),
        ensures
            r == any_glob_matches(self.global_allow_dirs@, file_name_or_empty(dir_path@)),
    {
        let name = file_name_or_default(dir_path);
        self.global_allow_dirs.is_match(name.as_str())
    }

    /// Why a file is globally denied, if it is (on its normalized path): its dotted extension;
    /// else the first matching denied file-name pattern as written; else the first denied
    /// file pattern that matches, as written.
    pub open spec fn file_global_denial(&self, p: Seq<char>) -> Option<Seq<char>> {
        let n = normalized(p);
        let name = file_name_or_empty(n);
        let hits = logical_hits_from(
            self.global_deny_patterns@,
            strs(self.global_deny_pattern_strs@),
            n,
            0,
        );
        if extension_listed(strs(self.global_deny_extensions@), n) {
            dotted_extension(n)
        } else if first_matching(self.global_deny_files@, name, 0) >= 0 {
            get_text(
                strs(self.global_deny_file_strs@),
                first_matching(self.global_deny_files@, name, 0),
            )
        } else if hits.len() > 0 {
            get_text(strs(self.global_deny_pattern_strs@), hits[0] as int)
        } else {
            None
        }
    }

    /// Why a file is globally denied, if it is.
    pub fn file_matches_global_deny(&self, file_path: &str) -> (r: Option<String>)
        requires
            self.wf(),
        ensures
            opt_text(r) == self.file_global_denial(file_path@),
    {
        let normalized_path = normalize_for_matching(file_path);
        if self.global_deny_extensions.len() > 0 {
            if let Some(ext) = dotted_extension_of(normalized_path.as_str()) {
                if contains_string(&self.global_deny_extensions, &ext) {
                    return Some(ext);
                }
            }
        }
        let name = file_name_or_default(normalized_path.as_str());
        if let Some(idx) = self.global_deny_files.first_match(name.as_str()) {
            return get_cloned(&self.global_deny_file_strs, idx);
        }
        let hits = matching_logical_path_globs(
            &self.global_deny_patterns,
            &self.global_deny_pattern_strs,
            normalized_path.as_str(),
        );
        if hits.len() > 0 {
            return get_cloned(&self.global_deny_pattern_strs, hits[0]);
        }
        None
    }

    /// The directory-only deny pattern (as written) that denies a directory, if one does.
    pub open spec fn dir_global_denial(&self, p: Seq<char>) -> Option<Seq<char>> {
        let hits = logical_hits_from(
            self.global_deny_dir_patterns@,
            strs(self.global_deny_dir_pattern_strs@),
            normalized(p),
            0,
        );
        if hits.len() > 0 {
            get_text(strs(self.global_deny_dir_pattern_strs@), hits[0] as int)
        } else {
            None
        }
    }

    /// The directory-only deny pattern that denies a directory, if one does.
    pub fn dir_matches_global_deny(&self, dir_path: &str) -> (r: Option<String>)
        requires
            self.wf(),
        ensures
            opt_text(r) == self.dir_global_denial(dir_path@),
    {
        let normalized_path = normalize_for_matching(dir_path);
        let hits = matching_logical_path_globs(
            &self.global_deny_dir_patterns,
            &self.global_deny_dir_pattern_strs,
            normalized_path.as_str(),
        );
        if hits.len() > 0 {
            return get_cloned(&self.global_deny_dir_pattern_strs, hits[0]);
        }
        None
    }

    /// The denied directory-name pattern (as written) that denies a directory, if one does.
    pub open spec fn dir_basename_denial(&self, p: Seq<char>) -> Option<Seq<char>> {
        let name = file_name_or_empty(p);
        if first_matching(self.global_deny_dir_basenames@, name, 0) >= 0 {
            get_text(
                strs(self.global_deny_dir_basename_strs@),
                first_matching(self.global_deny_dir_basenames@, name, 0),
            )
        } else {
            None
        }
    }

    /// The denied directory-name pattern that denies a directory, if one does.
    pub fn dir_matches_global_deny_basename(&self, dir_path: &str) -> (r: Option<String>)
        requires
            self.wf(),
        ensures
            opt_text(r) == self.dir_basename_denial(dir_path@),
    {
        let name = file_name_or_default(dir_path);
        if let Some(idx) = self.global_deny_dir_basenames.first_match(name.as_str()) {
            return get_cloned(&self.global_deny_dir_basename_strs, idx);
        }
        None
    }
}

/// Every setting of a configuration at once, for building one in a single call.
pub struct TestConfigParams {
    pub count_exclude_patterns: Vec<String>,
    pub scanner_exclude_patterns: Vec<String>,
    pub allowlist_rules: Vec<AllowlistRule>,
    pub global_allow_extensions: Vec<String>,
    pub global_allow_files: Vec<String>,
    pub global_allow_dirs: Vec<String>,
    pub global_deny_extensions: Vec<String>,
    pub global_deny_patterns: Vec<String>,
    pub global_deny_files: Vec<String>,
    pub global_deny_dirs: Vec<String>,
}

impl Default for TestConfigParams {
    fn default() -> (r: Self)
        ensures
            r.count_exclude_patterns@.len() == 0,
            r.scanner_exclude_patterns@.len() == 0,
            r.allowlist_rules@.len() == 0,
            r.global_allow_extensions@.len() == 0,
            r.global_allow_files@.len() == 0,
            r.global_allow_dirs@.len() == 0,
            r.global_deny_extensions@.len() == 0,
            r.global_deny_patterns@.len() == 0,
            r.global_deny_files@.len() == 0,
            r.global_deny_dirs@.len() == 0,
    {
        TestConfigParams {
            count_exclude_patterns: Vec::new(),
            scanner_exclude_patterns: Vec::new(),
            allowlist_rules: Vec::new(),
            global_allow_extensions: Vec::new(),
            global_allow_files: Vec::new(),
            global_allow_dirs: Vec::new(),
            global_deny_extensions: Vec::new(),
            global_deny_patterns: Vec::new(),
            global_deny_files: Vec::new(),
            global_deny_dirs: Vec::new(),
        }
    }
}

impl TestConfigParams {
    /// The builder holding these settings.
    pub open spec fn builder_of(self, b: StructureScanConfigBuilder) -> bool {
        &&& b.rules() == self.allowlist_rules@
        &&& b.list(ConfigList::CountExclude) == strs(self.count_exclude_patterns@)
        &&& b.list(ConfigList::ScannerExclude) == strs(self.scanner_exclude_patterns@)
        &&& b.list(ConfigList::GlobalAllowExtensions) == strs(self.global_allow_extensions@)
        &&& b.list(ConfigList::GlobalAllowFiles) == strs(self.global_allow_files@)
        &&& b.list(ConfigList::GlobalAllowDirs) == strs(self.global_allow_dirs@)
        &&& b.list(ConfigList::GlobalDenyExtensions) == strs(self.global_deny_extensions@)
        &&& b.list(ConfigList::GlobalDenyPatterns) == strs(self.global_deny_patterns@)
        &&& b.list(ConfigList::GlobalDenyFiles) == strs(self.global_deny_files@)
        &&& b.list(ConfigList::GlobalDenyDirs) == strs(self.global_deny_dirs@)
    }
}

impl StructureScanConfig {
    /// The configuration with all the settings of `params`, built as the builder builds it.
    pub fn new(params: TestConfigParams) -> (r: Result<Self, SlocGuardError>)
        requires
            forall|i: int|
                0 <= i < params.allowlist_rules@.len() ==> (
                #[trigger] params.allowlist_rules@[i]).wf(),
        ensures
            exists|b: StructureScanConfigBuilder| #[trigger]
                params.builder_of(b) && match r {
                    Ok(c) => b.config_error() is None && b.built(c),
                    Err(e) => b.config_error() is Some && e.pattern_text() == b.config_error(),
                },
    {
        let ghost p = params;
        let b = Self::builder().count_exclude(params.count_exclude_patterns).scanner_exclude(
            params.scanner_exclude_patterns,
        ).allowlist_rules(params.allowlist_rules).global_allow_extensions(
            params.global_allow_extensions,
        ).global_allow_files(params.global_allow_files).global_allow_dirs(
            params.global_allow_dirs,
        ).global_deny_extensions(params.global_deny_extensions).global_deny_patterns(
            params.global_deny_patterns,
        ).global_deny_files(params.global_deny_files).global_deny_dirs(params.global_deny_dirs);
        assert(p.builder_of(b));
        b.build()
    }
}

impl Default for StructureScanConfig {
    fn default() -> (r: Self)
        ensures
            r.wf(),
            r.count_exclude@.len() == 0,
            r.scanner_exclude@.len() == 0,
            r.allowlist_rules@.len() == 0,
            r.global_allow_extensions@.len() == 0,
            r.global_allow_file_strs@.len() == 0,
            r.global_allow_dir_strs@.len() == 0,
            r.global_deny_extensions@.len() == 0,
            r.global_deny_patterns@.len() == 0,
            r.global_deny_files@.len() == 0,
            r.global_deny_dir_basenames@.len() == 0,
            r.global_deny_dir_patterns@.len() == 0,
            r.scanner_exclude_dir_names@.len() == 0,
            r.count_exclude_pattern_strs@.len() == 0,
    {
        let r = StructureScanConfig {
            count_exclude: GlobList::empty(),
            count_exclude_pattern_strs: Vec::new(),
            scanner_exclude: GlobList::empty(),
            scanner_exclude_dir_names: Vec::new(),
            allowlist_rules: Vec::new(),
            global_allow_extensions: Vec::new(),
            global_allow_files: GlobList::empty(),
            global_allow_file_strs: Vec::new(),
            global_allow_dirs: GlobList::empty(),
            global_allow_dir_strs: Vec::new(),
            global_deny_extensions: Vec::new(),
            global_deny_patterns: GlobList::empty(),
            global_deny_pattern_strs: Vec::new(),
            global_deny_files: GlobList::empty(),
            global_deny_file_strs: Vec::new(),
            global_deny_dir_basenames: GlobList::empty(),
            global_deny_dir_basename_strs: Vec::new(),
            global_deny_dir_patterns: GlobList::empty(),
            global_deny_dir_pattern_strs: Vec::new(),
        };
        assert(strs(r.scanner_exclude_dir_names@) =~= Seq::<Seq<char>>::empty());
        assert(Seq::<Seq<char>>::empty().map_values(|p: Seq<char>| normalized(p))
            =~= Seq::<Seq<char>>::empty());
        r
    }
}


/// A file is globally allowed exactly when its extension, with its leading dot, is one of the
/// global allowed extensions, or its name matches one of the global allowed file patterns; a
/// name match allows the file whatever the extension list holds.
pub proof fn law_global_allow_is_extension_or_name(c: StructureScanConfig, p: Seq<char>)
    ensures
        (exists|i: int|
            0 <= i < c.global_allow_files@.len() && glob_matches(
                #[trigger] c.global_allow_files@[i],
                file_name_or_empty(p),
            )) ==> c.file_globally_allowed(p),
        (extension_of(p) matches Some(e) && exists|i: int|
            0 <= i < c.global_allow_extensions@.len() && (#[trigger] c.global_allow_extensions@[i])@
                == seq!['.'] + e) ==> c.file_globally_allowed(p),
        c.file_globally_allowed(p) ==> (exists|i: int|
            0 <= i < c.global_allow_files@.len() && glob_matches(
                #[trigger] c.global_allow_files@[i],
                file_name_or_empty(p),
            )) || (extension_of(p) matches Some(e) && exists|i: int|
            0 <= i < c.global_allow_extensions@.len() && (#[trigger] c.global_allow_extensions@[i])@
                == seq!['.'] + e),
{
    let exts = strs(c.global_allow_extensions@);
    if let Some(e) = extension_of(p) {
        if exists|i: int|
            0 <= i < c.global_allow_extensions@.len() && (#[trigger] c.global_allow_extensions@[i])@
                == seq!['.'] + e {
            let i = choose|i: int|
                0 <= i < c.global_allow_extensions@.len() && (#[trigger] c.global_allow_extensions@[i])@
                    == seq!['.'] + e;
            assert(exts[i] == seq!['.'] + e);
            assert(exts.contains(seq!['.'] + e));
        }
        if exts.contains(seq!['.'] + e) {
            let i = choose|i: int| 0 <= i < exts.len() && exts[i] == seq!['.'] + e;
            assert(c.global_allow_extensions@[i]@ == exts[i]);
        }
    }
}

} // verus!
