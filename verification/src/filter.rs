//! File filters for scanning: extension and exclude-pattern filtering, and the directory
//! prefixes whose whole subtree an exclude pattern removes.
use vstd::prelude::*;

use crate::error::SlocGuardError;
use crate::glob::{any_glob_matches, strs, GlobList};
use crate::logical_glob::{build_logical_glob_list, logical_list_error};
use crate::path_utils::extension_of;
use crate::project::{normalize_for_matching, normalized, PathsView, ProjectPaths};
use crate::text::{chars_of, string_from_range};

verus! {

/// Each pattern normalized into the namespace of logical paths.
pub open spec fn normalized_all(patterns: Seq<Seq<char>>) -> Seq<Seq<char>> {
    patterns.map_values(|p: Seq<char>| normalized(p))
}

/// The prefix `X` of a pattern `X/**` with a non-empty `X`, if the pattern has that form.
pub open spec fn recursive_prefix(p: Seq<char>) -> Option<Seq<char>> {
    if p.len() > 3 && p.skip(p.len() - 3) == seq!['/', '*', '*'] {
        Some(p.take(p.len() - 3))
    } else {
        None
    }
}

/// The directory prefixes of the patterns of the form `X/**` (non-empty `X`), in order: the
/// directories every descendant of which the pattern excludes.
pub open spec fn exclusion_prefixes(patterns: Seq<Seq<char>>) -> Seq<Seq<char>>
    decreases patterns.len(),
{
    if patterns.len() == 0 {
        Seq::empty()
    } else {
        let rest = exclusion_prefixes(patterns.drop_last());
        match recursive_prefix(patterns.last()) {
            Some(x) => rest.push(x),
            None => rest,
        }
    }
}

/// Why directory exclusions cannot be built from `prefixes`, if they cannot: the first prefix
/// whose normalization does not parse, else the set of them that cannot be built.
pub open spec fn dir_prefix_error(prefixes: Seq<Seq<char>>) -> Option<Seq<char>> {
    logical_list_error(prefixes, "combined directory patterns"@)
}

/// The normalized scanner exclude patterns.
pub fn normalize_scanner_exclude_patterns(patterns: &Vec<String>) -> (r: Vec<String>)
    ensures
        strs(r@) == normalized_all(strs(patterns@)),
{
    let mut out: Vec<String> = Vec::new();
    let mut i: usize = 0;
    while i < patterns.len()
        invariant
            0 <= i <= patterns.len(),
            strs(out@) == normalized_all(strs(patterns@).take(i as int)),
        decreases patterns.len() - i,
    {
        let n = normalize_for_matching(patterns[i].as_str());
        let ghost before = strs(out@);
        out.push(n);
        assert(strs(out@) =~= before.push(normalized(patterns@[i as int]@)));
        assert(normalized_all(strs(patterns@).take(i + 1)) =~= normalized_all(
            strs(patterns@).take(i as int),
        ).push(normalized(patterns@[i as int]@)));
        i = i + 1;
    }
    assert(strs(patterns@).take(patterns.len() as int) =~= strs(patterns@));
    out
}

/// The prefix of `p` when it has the form `X/**` with a non-empty `X`.
fn strip_recursive_suffix(p: &str) -> (r: Option<String>)
    ensures
        match r {
            Some(x) => recursive_prefix(p@) == Some(x@),
            None => recursive_prefix(p@) is None,
        },
{
    let v = chars_of(p);
    let n = v.len();
    if n > 3 && v[n - 3] == '/' && v[n - 2] == '*' && v[n - 1] == '*' {
        assert(v@.skip(n - 3) =~= seq!['/', '*', '*']);
        assert(v@.take(n - 3) =~= v@.subrange(0, n - 3));
        Some(string_from_range(&v, 0, n - 3))
    } else {
        assert(n > 3 ==> v@.skip(n - 3)[0] == v@[n - 3] && v@.skip(n - 3)[1] == v@[n - 2]
            && v@.skip(n - 3)[2] == v@[n - 1]);
        None
    }
}

/// Directory prefixes that can be pruned safely: only a terminal `/**` proves that every
/// descendant is excluded, so file globs such as `vendor/[!x]*` never prune a directory.
#[derive(Debug)]
pub struct DirectoryExclusions {
    prefixes: Vec<String>,
    matcher: GlobList,
}

impl View for DirectoryExclusions {
    type V = Seq<Seq<char>>;

    /// The prefixes, in order.
    closed spec fn view(&self) -> Seq<Seq<char>> {
        strs(self.prefixes@)
    }
}

impl DirectoryExclusions {
    /// The prefixes, in order.
    pub open spec fn prefix_list(&self) -> Seq<Seq<char>> {
        self@
    }

    #[verifier::type_invariant]
    closed spec fn compiled(&self) -> bool {
        &&& self.matcher.wf()
        &&& self.matcher@ == normalized_all(strs(self.prefixes@))
    }

    /// Whether some prefix, normalized, matches the path (a directory path).
    pub open spec fn excludes(&self, path: Seq<char>) -> bool {
        any_glob_matches(normalized_all(self.prefix_list()), path)
    }

    /// The exclusions of the `X/**` patterns among `patterns`.
    pub fn from_patterns(patterns: &Vec<String>) -> (r: Result<Self, SlocGuardError>)
        ensures
            ({
                let pre = exclusion_prefixes(strs(patterns@));
                match r {
                    Ok(d) => dir_prefix_error(pre) is None && d.prefix_list() == pre,
                    Err(e) => dir_prefix_error(pre) is Some && e.pattern_text() == dir_prefix_error(
                        pre,
                    ),
                }
            }),
    {
        let mut prefixes: Vec<String> = Vec::new();
        let mut i: usize = 0;
        while i < patterns.len()
            invariant
                0 <= i <= patterns.len(),
                strs(prefixes@) == exclusion_prefixes(strs(patterns@).take(i as int)),
            decreases patterns.len() - i,
        {
            let ghost before = strs(prefixes@);
            assert(strs(patterns@).take(i + 1).drop_last() =~= strs(patterns@).take(i as int));
            assert(strs(patterns@).take(i + 1).last() == patterns@[i as int]@);
            match strip_recursive_suffix(patterns[i].as_str()) {
                Some(x) => {
                    prefixes.push(x);
                    assert(strs(prefixes@) =~= before.push(
                        recursive_prefix(patterns@[i as int]@)->0,
                    ));
                },
                None => {},
            }
            i = i + 1;
        }
        assert(strs(patterns@).take(patterns.len() as int) =~= strs(patterns@));
        Self::from_prefixes(prefixes)
    }

    /// Exclusions for the given directory prefixes; the first prefix that does not compile
    /// is reported as written.
    pub fn from_prefixes(prefixes: Vec<String>) -> (r: Result<Self, SlocGuardError>)
        ensures
            ({
                let pre = strs(prefixes@);
                match r {
                    Ok(d) => dir_prefix_error(pre) is None && d.prefix_list() == pre,
                    Err(e) => dir_prefix_error(pre) is Some && e.pattern_text() == dir_prefix_error(
                        pre,
                    ),
                }
            }),
    {
        match build_logical_glob_list(&prefixes, "combined directory patterns") {
            Ok(matcher) => Ok(DirectoryExclusions { prefixes, matcher }),
            Err(e) => Err(e),
        }
    }

    /// The prefixes, as written.
    pub fn prefixes(&self) -> (r: &Vec<String>)
        ensures
            strs(r@) == self.prefix_list(),
    {
        &self.prefixes
    }

    /// Whether the directory path lies under an excluded prefix.
    pub fn is_match(&self, path: &str) -> (r: bool)
        ensures
            r == self.excludes(path@),
    {
        proof {
            use_type_invariant(self);
        }
        self.matcher.is_match(path)
    }

    /// A copy of the exclusions.
    pub fn duplicate(&self) -> (r: Self)
        ensures
            r.prefix_list() == self.prefix_list(),
    {
        proof {
            use_type_invariant(self);
        }
        let prefixes = self.prefixes.clone();
        assert(prefixes@ =~= self.prefixes@) by {
            assert forall|i: int| 0 <= i < prefixes@.len() implies prefixes@[i]
                == self.prefixes@[i] by {
                assert(cloned::<String>(self.prefixes[i], prefixes[i]));
            }
        }
        DirectoryExclusions { prefixes, matcher: self.matcher.duplicate() }
    }

}

/// Predicate deciding which directories are pruned with their whole subtree: those whose
/// logical path (in the pruner's namespace), or, when `match_identity_path` is set, whose path
/// as given, lies under an excluded prefix.
#[derive(Debug)]
pub struct DirectoryPruner {
    exclusions: DirectoryExclusions,
    project_paths: ProjectPaths,
    match_identity_path: bool,
}

/// A directory pruner as plain values: the excluded prefixes, the path context that paths are
/// mapped through, and whether paths are also tried as given.
pub struct PrunerView {
    pub prefixes: Seq<Seq<char>>,
    pub paths: PathsView,
    pub match_identity_path: bool,
}

/// Whether some prefix, normalized, matches the directory path `path`.
pub open spec fn prefixes_exclude(prefixes: Seq<Seq<char>>, path: Seq<char>) -> bool {
    any_glob_matches(normalized_all(prefixes), path)
}

impl View for DirectoryPruner {
    type V = PrunerView;

    closed spec fn view(&self) -> PrunerView {
        PrunerView {
            prefixes: self.exclusions@,
            paths: self.project_paths@,
            match_identity_path: self.match_identity_path,
        }
    }
}

impl DirectoryPruner {
    /// Whether the pruner removes the directory `path`.
    pub open spec fn prunes_spec(&self, path: Seq<char>) -> bool {
        ||| prefixes_exclude(self@.prefixes, normalized(self@.paths.logical_of(path)))
        ||| (self@.match_identity_path && prefixes_exclude(self@.prefixes, normalized(path)))
    }

    /// A pruner for `exclusions`, with paths mapped through `project_paths`.
    pub fn new(
        exclusions: DirectoryExclusions,
        project_paths: ProjectPaths,
        match_identity_path: bool,
    ) -> (r: Self)
        ensures
            forall|p: Seq<char>| #[trigger]
                r.prunes_spec(p) == (exclusions.excludes(normalized(project_paths.logical_of(p))) || (
                match_identity_path && exclusions.excludes(normalized(p)))),
    {
        DirectoryPruner { exclusions, project_paths, match_identity_path }
    }

    /// Whether the pruner removes the directory `path` with its subtree.
    pub fn prunes(&self, path: &str) -> (r: bool)
        ensures
            r == self.prunes_spec(path@),
    {
        let logical = normalize_for_matching(self.project_paths.logical(path).as_str());
        self.exclusions.is_match(logical.as_str()) || (self.match_identity_path
            && self.exclusions.is_match(normalize_for_matching(path).as_str()))
    }
}

/// A filter deciding which scanned files are kept.
pub trait FileFilter {
    /// Whether the file at `path` is kept.
    spec fn includes(&self, path: Seq<char>) -> bool;

    /// Whether the file at `path` is excluded from the scan altogether, rather than merely
    /// filtered by type.
    spec fn scan_excludes(&self, path: Seq<char>) -> bool;

    /// Whether the directory at `path` is pruned with its whole subtree.
    spec fn prunes(&self, path: Seq<char>) -> bool;

    /// The path namespace of the filter's globs.
    spec fn namespace(&self) -> ProjectPaths;

    /// Whether the file at `path` is kept.
    fn should_include(&self, path: &str) -> (r: bool)
        ensures
            r == self.includes(path@),
    ;

    /// Whether the file at `path` is excluded from the scan rather than filtered by type.
    fn is_scanner_excluded(&self, path: &str) -> (r: bool)
        ensures
            r == self.scan_excludes(path@),
    ;

    /// The predicate for directories whose whole subtree is excluded.
    fn directory_pruner(&self) -> (r: DirectoryPruner)
        ensures
            forall|p: Seq<char>| #[trigger] r.prunes_spec(p) == self.prunes(p),
    ;

    /// The path namespace of the filter's globs.
    fn project_paths(&self) -> (r: &ProjectPaths)
        ensures
            *r == self.namespace(),
    ;
}

/// Whether `v` holds a string equal to `s`.
fn holds_text(v: &Vec<String>, s: &str) -> (r: bool)
    ensures
        r == strs(v@).contains(s@),
{
    let b = chars_of(s);
    let mut i: usize = 0;
    while i < v.len()
        invariant
            0 <= i <= v.len(),
            b@ == s@,
            forall|j: int| 0 <= j < i ==> v@[j]@ != s@,
        decreases v.len() - i,
    {
        let a = chars_of(v[i].as_str());
        if crate::text::chars_eq(&a, &b) {
            assert(strs(v@)[i as int] == s@);
            return true;
        }
        i = i + 1;
    }
    assert(!strs(v@).contains(s@)) by {
        if strs(v@).contains(s@) {
            let k = choose|k: int| 0 <= k < strs(v@).len() && strs(v@)[k] == s@;
            assert(v@[k]@ == strs(v@)[k]);
        }
    }
    false
}

/// Keeps files by extension (any extension when none is given) and drops those matching an
/// exclude pattern, matched against the path's logical form.
#[derive(Debug)]
pub struct GlobFilter {
    extensions: Vec<String>,
    exclude_patterns: GlobList,
    exclude_directories: DirectoryExclusions,
    project_paths: ProjectPaths,
}

/// Why `GlobFilter::with_project_paths` fails on these exclude patterns, if it does: the
/// directory prefixes are compiled first, then the patterns, all after normalization.
pub open spec fn glob_filter_error(exclude_patterns: Seq<Seq<char>>) -> Option<Seq<char>> {
    let ns = normalized_all(exclude_patterns);
    let pre = exclusion_prefixes(ns);
    match dir_prefix_error(pre) {
        Some(x) => Some(x),
        None => logical_list_error(ns, "combined patterns"@),
    }
}

/// A glob filter as plain values.
pub struct FilterView {
    /// The kept extensions (without the dot); none means every file.
    pub extensions: Seq<Seq<char>>,
    /// The compiled exclude patterns, in the logical namespace.
    pub exclude_globs: Seq<Seq<char>>,
    /// The prefixes of the subtrees that are pruned.
    pub pruned_prefixes: Seq<Seq<char>>,
    /// The path context that paths are mapped through.
    pub namespace: ProjectPaths,
}

impl View for GlobFilter {
    type V = FilterView;

    closed spec fn view(&self) -> FilterView {
        FilterView {
            extensions: strs(self.extensions@),
            exclude_globs: self.exclude_patterns@,
            pruned_prefixes: self.exclude_directories@,
            namespace: self.project_paths,
        }
    }
}

impl GlobFilter {
    #[verifier::type_invariant]
    closed spec fn compiled(&self) -> bool {
        self.exclude_patterns.wf()
    }

    /// The kept extensions (without the dot); none means every file.
    pub open spec fn extension_list(&self) -> Seq<Seq<char>> {
        self@.extensions
    }

    /// The compiled exclude patterns, in the logical namespace.
    pub open spec fn exclude_globs(&self) -> Seq<Seq<char>> {
        self@.exclude_globs
    }

    /// The prefixes of the subtrees that are pruned.
    pub open spec fn pruned_prefixes(&self) -> Seq<Seq<char>> {
        self@.pruned_prefixes
    }

    /// Whether the file's extension is kept.
    pub open spec fn extension_kept(&self, path: Seq<char>) -> bool {
        self.extension_list().len() == 0 || (extension_of(path) is Some
            && self.extension_list().contains(extension_of(path)->0))
    }

    /// Whether the logical form of the path matches an exclude pattern.
    pub open spec fn excluded(&self, path: Seq<char>) -> bool {
        any_glob_matches(self.exclude_globs(), normalized(self.namespace().logical_of(path)))
    }

    /// A filter with paths taken as they are (unrooted).
    pub fn new(extensions: Vec<String>, exclude_patterns: &Vec<String>) -> (r: Result<
        Self,
        SlocGuardError,
    >)
        ensures
            match r {
                Ok(f) => glob_filter_error(strs(exclude_patterns@)) is None && f.extension_list()
                    == strs(extensions@) && f.exclude_globs() == normalized_all(
                    normalized_all(strs(exclude_patterns@)),
                ) && f.pruned_prefixes() == exclusion_prefixes(
                    normalized_all(strs(exclude_patterns@)),
                ) && f.namespace().root_spec() is None && f.namespace().cwd_spec() is None,
                Err(e) => glob_filter_error(strs(exclude_patterns@)) == e.pattern_text()
                    && e.pattern_text() is Some,
            },
    {
        Self::with_project_paths(extensions, exclude_patterns, ProjectPaths::unrooted())
    }

    /// A filter whose exclude patterns are read relative to the configuration root of
    /// `project_paths`.
    pub fn with_project_paths(
        extensions: Vec<String>,
        exclude_patterns: &Vec<String>,
        project_paths: ProjectPaths,
    ) -> (r: Result<Self, SlocGuardError>)
        ensures
            match r {
                Ok(f) => glob_filter_error(strs(exclude_patterns@)) is None && f.extension_list()
                    == strs(extensions@) && f.exclude_globs() == normalized_all(
                    normalized_all(strs(exclude_patterns@)),
                ) && f.pruned_prefixes() == exclusion_prefixes(
                    normalized_all(strs(exclude_patterns@)),
                ) && f.namespace() == project_paths,
                Err(e) => glob_filter_error(strs(exclude_patterns@)) == e.pattern_text()
                    && e.pattern_text() is Some,
            },
    {
        let patterns = normalize_scanner_exclude_patterns(exclude_patterns);
        let exclude_directories = match DirectoryExclusions::from_patterns(&patterns) {
            Ok(d) => d,
            Err(e) => {
                return Err(e);
            },
        };
        let globs = match build_logical_glob_list(&patterns, "combined patterns") {
            Ok(g) => g,
            Err(e) => {
                return Err(e);
            },
        };
        Ok(GlobFilter { extensions, exclude_patterns: globs, exclude_directories, project_paths })
    }

    fn has_valid_extension(&self, path: &str) -> (r: bool)
        ensures
            r == self.extension_kept(path@),
    {
        if self.extensions.len() == 0 {
            return true;
        }
        match crate::path_utils::extension(path) {
            Some(ext) => holds_text(&self.extensions, ext.as_str()),
            None => false,
        }
    }

    fn is_excluded(&self, path: &str) -> (r: bool)
        ensures
            r == self.excluded(path@),
    {
        proof {
            use_type_invariant(self);
        }
        let logical = normalize_for_matching(self.project_paths.logical(path).as_str());
        self.exclude_patterns.is_match(logical.as_str())
    }
}

impl FileFilter for GlobFilter {
    open spec fn includes(&self, path: Seq<char>) -> bool {
        self.extension_kept(path) && !self.excluded(path)
    }

    open spec fn scan_excludes(&self, path: Seq<char>) -> bool {
        self.excluded(path)
    }

    open spec fn prunes(&self, path: Seq<char>) -> bool {
        prefixes_exclude(self@.pruned_prefixes, normalized(self@.namespace@.logical_of(path)))
    }

    open spec fn namespace(&self) -> ProjectPaths {
        self@.namespace
    }

    fn should_include(&self, path: &str) -> (r: bool) {
        self.has_valid_extension(path) && !self.is_excluded(path)
    }

    fn is_scanner_excluded(&self, path: &str) -> (r: bool) {
        self.is_excluded(path)
    }

    fn directory_pruner(&self) -> (r: DirectoryPruner) {
        DirectoryPruner::new(
            self.exclude_directories.duplicate(),
            self.project_paths.duplicate(),
            false,
        )
    }

    fn project_paths(&self) -> (r: &ProjectPaths) {
        &self.project_paths
    }
}

} // verus!
