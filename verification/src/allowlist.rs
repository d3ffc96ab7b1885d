//! Allowlist and denylist rules for the files and directories of a directory scope.
use vstd::prelude::*;

use crate::error::SlocGuardError;
use crate::glob::{
    any_glob_matches, first_matching, glob_list_error, glob_valid, glob_matches, regex_matches,
    regex_compile_error, regex_valid, strs, GlobList,
};
use crate::path_utils::{extension, extension_of, file_name_or_default, file_name_or_empty};
use crate::project::{dot_prefix_stripped, strip_dot_prefix};
use crate::text::{concat2, decimal, u64_to_string};
use vstd::string::StringExecFns;

verus! {

/// The extension of a path with a leading dot (`.rs`), if it has an extension.
pub open spec fn dotted_extension(p: Seq<char>) -> Option<Seq<char>> {
    match extension_of(p) {
        Some(e) => Some(seq!['.'] + e),
        None => None,
    }
}

/// Whether the dotted extension of `p` is one of `extensions`.
pub open spec fn extension_listed(extensions: Seq<Seq<char>>, p: Seq<char>) -> bool {
    extensions.len() > 0 && dotted_extension(p) is Some && extensions.contains(
        dotted_extension(p)->0,
    )
}

/// The text `pattern #<idx>` that names a deny pattern by its position.
pub open spec fn pattern_label(idx: nat) -> Seq<char> {
    "pattern #"@ + decimal(idx)
}

/// The element of `v` at `i`, if there is one (`slice::get`).
pub open spec fn get_text(v: Seq<Seq<char>>, i: int) -> Option<Seq<char>> {
    if 0 <= i < v.len() {
        Some(v[i])
    } else {
        None
    }
}

/// A compiled allowlist rule for the files and subdirectories of the directories in a scope.
#[derive(Debug, Clone)]
pub struct AllowlistRule {
    /// Glob pattern defining the directory scope where this rule applies.
    pub scope: String,
    /// The scope, validated as a glob.
    matcher: String,
    /// Allowed extensions, with leading dot (e.g. `.rs`).
    pub allow_extensions: Vec<String>,
    /// Allowed patterns, matched against the file name and the full path.
    pub allow_patterns: GlobList,
    /// Allowed file-name patterns.
    pub allow_files: GlobList,
    /// The file-name allow patterns as written.
    pub allow_file_strs: Vec<String>,
    /// Allowed directory-name patterns.
    pub allow_dirs: GlobList,
    /// The directory-name allow patterns as written.
    pub allow_dir_strs: Vec<String>,
    /// Denied extensions, with leading dot (e.g. `.exe`).
    pub deny_extensions: Vec<String>,
    /// Denied patterns, matched against the file name and the full path.
    pub deny_patterns: GlobList,
    /// Denied file-name patterns.
    pub deny_files: GlobList,
    /// The file-name deny patterns as written.
    pub deny_file_strs: Vec<String>,
    /// Denied directory-name patterns.
    pub deny_dirs: GlobList,
    /// The directory-name deny patterns as written.
    pub deny_dir_strs: Vec<String>,
    /// Regular expression that file names must match, validated.
    naming_pattern: Option<String>,
    /// The naming regular expression as written.
    pub naming_pattern_str: Option<String>,
}

/// Whether every pattern of a list parses as a glob.
pub open spec fn all_globs_valid(patterns: Seq<Seq<char>>) -> bool {
    forall|i: int| 0 <= i < patterns.len() ==> glob_valid(#[trigger] patterns[i])
}

/// The settings of an allowlist rule as plain values.
pub struct RuleView {
    /// The scope as written.
    pub scope: Seq<char>,
    /// The scope glob that directories are matched against.
    pub scope_glob: Seq<char>,
    pub allow_extensions: Seq<Seq<char>>,
    pub allow_patterns: Seq<Seq<char>>,
    pub allow_files: Seq<Seq<char>>,
    pub allow_file_strs: Seq<Seq<char>>,
    pub allow_dirs: Seq<Seq<char>>,
    pub allow_dir_strs: Seq<Seq<char>>,
    pub deny_extensions: Seq<Seq<char>>,
    pub deny_patterns: Seq<Seq<char>>,
    pub deny_files: Seq<Seq<char>>,
    pub deny_file_strs: Seq<Seq<char>>,
    pub deny_dirs: Seq<Seq<char>>,
    pub deny_dir_strs: Seq<Seq<char>>,
    /// The naming regular expression, if any.
    pub naming_regex: Option<Seq<char>>,
    /// The naming regular expression as written, if any.
    pub naming_text: Option<Seq<char>>,
}

impl View for AllowlistRule {
    type V = RuleView;

    closed spec fn view(&self) -> RuleView {
        RuleView {
            scope: self.scope@,
            scope_glob: self.matcher@,
            allow_extensions: strs(self.allow_extensions@),
            allow_patterns: self.allow_patterns@,
            allow_files: self.allow_files@,
            allow_file_strs: strs(self.allow_file_strs@),
            allow_dirs: self.allow_dirs@,
            allow_dir_strs: strs(self.allow_dir_strs@),
            deny_extensions: strs(self.deny_extensions@),
            deny_patterns: self.deny_patterns@,
            deny_files: self.deny_files@,
            deny_file_strs: strs(self.deny_file_strs@),
            deny_dirs: self.deny_dirs@,
            deny_dir_strs: strs(self.deny_dir_strs@),
            naming_regex: match self.naming_pattern {
                Some(p) => Some(p@),
                None => None,
            },
            naming_text: opt_text(self.naming_pattern_str),
        }
    }
}

impl AllowlistRule {
    /// The scope glob that directories are matched against.
    pub open spec fn scope_glob(&self) -> Seq<char> {
        self@.scope_glob
    }

    /// The naming regular expression, if any.
    pub open spec fn naming_regex(&self) -> Option<Seq<char>> {
        self@.naming_regex
    }

    /// The scope as written.
    pub open spec fn scope_text(&self) -> Seq<char> {
        self@.scope
    }

    /// The naming regular expression as written, if any.
    pub open spec fn naming_text(&self) -> Option<Seq<char>> {
        self@.naming_text
    }

    /// Whether the rule's scope contains the directory `dir` (a leading `./` ignored).
    pub open spec fn in_scope(&self, dir: Seq<char>) -> bool {
        glob_matches(self.scope_glob(), dot_prefix_stripped(dir))
    }

    /// Whether a file name satisfies the naming convention (always, without one).
    pub open spec fn name_conforms(&self, file_path: Seq<char>) -> bool {
        match self.naming_regex() {
            None => true,
            Some(re) => regex_matches(re, file_name_or_empty(file_path)),
        }
    }

    /// A copy of the scope.
    pub fn scope_string(&self) -> (r: String)
        ensures
            r@ == self.scope_text(),
    {
        self.scope.clone()
    }

    /// A copy of the naming regular expression as written.
    pub fn naming_pattern_string(&self) -> (r: Option<String>)
        ensures
            opt_text(r) == self.naming_text(),
    {
        match &self.naming_pattern_str {
            Some(s) => Some(s.clone()),
            None => None,
        }
    }

    /// Every compiled pattern of the rule is valid.
    pub open spec fn wf(&self) -> bool {
        &&& glob_valid(self@.scope_glob)
        &&& all_globs_valid(self@.allow_patterns)
        &&& all_globs_valid(self@.allow_files)
        &&& all_globs_valid(self@.allow_dirs)
        &&& all_globs_valid(self@.deny_patterns)
        &&& all_globs_valid(self@.deny_files)
        &&& all_globs_valid(self@.deny_dirs)
        &&& (self@.naming_regex matches Some(p) ==> regex_valid(p))
    }

    /// Whether the rule restricts files to an allowlist.
    pub open spec fn has_allowlist_spec(&self) -> bool {
        self@.allow_extensions.len() > 0 || self@.allow_patterns.len() > 0
            || self@.allow_file_strs.len() > 0
    }

    /// Whether the rule restricts subdirectories to an allowlist.
    pub open spec fn has_dir_allowlist_spec(&self) -> bool {
        self@.allow_dir_strs.len() > 0
    }

    /// Whether a directory's name matches a directory allow pattern.
    pub open spec fn dir_allowed(&self, p: Seq<char>) -> bool {
        any_glob_matches(self@.allow_dirs, file_name_or_empty(p))
    }

    /// Whether a file is allowed: its extension is allowed, or its name matches an allowed
    /// file pattern, or its name or path matches an allowed pattern.
    pub open spec fn file_allowed(&self, p: Seq<char>) -> bool {
        ||| extension_listed(self@.allow_extensions, p)
        ||| any_glob_matches(self@.allow_files, file_name_or_empty(p))
        ||| any_glob_matches(self@.allow_patterns, file_name_or_empty(p))
        ||| any_glob_matches(self@.allow_patterns, p)
    }

    /// Why a file is denied, if it is: its dotted extension when denied; else the first
    /// matching file-name deny pattern as written; else the first deny pattern matching its
    /// name, then its path, named by position.
    pub open spec fn file_denial(&self, p: Seq<char>) -> Option<Seq<char>> {
        let v = self@;
        let name = file_name_or_empty(p);
        if extension_listed(v.deny_extensions, p) {
            dotted_extension(p)
        } else if first_matching(v.deny_files, name, 0) >= 0 {
            get_text(v.deny_file_strs, first_matching(v.deny_files, name, 0))
        } else if first_matching(v.deny_patterns, name, 0) >= 0 {
            Some(pattern_label(first_matching(v.deny_patterns, name, 0) as nat))
        } else if first_matching(v.deny_patterns, p, 0) >= 0 {
            Some(pattern_label(first_matching(v.deny_patterns, p, 0) as nat))
        } else {
            None
        }
    }

    /// Why a directory is denied, if it is: the first matching directory-name deny pattern as
    /// written.
    pub open spec fn dir_denial(&self, p: Seq<char>) -> Option<Seq<char>> {
        let v = self@;
        let name = file_name_or_empty(p);
        if first_matching(v.deny_dirs, name, 0) >= 0 {
            get_text(v.deny_dir_strs, first_matching(v.deny_dirs, name, 0))
        } else {
            None
        }
    }

    /// Whether every compiled pattern of the rule is valid (always so for a built rule).
    pub fn is_valid(&self) -> (r: bool)
        ensures
            r == self.wf(),
    {
        if !crate::glob::glob_parses(self.matcher.as_str()) {
            return false;
        }
        if !(self.allow_patterns.is_valid() && self.allow_files.is_valid()
            && self.allow_dirs.is_valid() && self.deny_patterns.is_valid()
            && self.deny_files.is_valid() && self.deny_dirs.is_valid()) {
            return false;
        }
        match &self.naming_pattern {
            Some(p) => crate::glob::regex_error(p.as_str()).is_none(),
            None => true,
        }
    }

    /// Check if a file allowlist is configured (extensions, patterns, or files).
    pub fn has_allowlist(&self) -> (r: bool)
        ensures
            r == self.has_allowlist_spec(),
    {
        self.allow_extensions.len() > 0 || !self.allow_patterns.is_empty()
            || self.allow_file_strs.len() > 0
    }

    /// Check if a directory allowlist is configured.
    pub fn has_dir_allowlist(&self) -> (r: bool)
        ensures
            r == self.has_dir_allowlist_spec(),
    {
        self.allow_dir_strs.len() > 0
    }

    /// Check whether a file is denied; returns the matched extension or pattern if so.
    pub fn file_matches_deny(&self, file_path: &str) -> (r: Option<String>)
        requires
            self.wf(),
        ensures
            opt_text(r) == self.file_denial(file_path@),
    {
        if let Some(ext) = dotted_extension_of(file_path) {
            if contains_string(&self.deny_extensions, &ext) {
                return Some(ext);
            }
        }
        let name = file_name_or_default(file_path);
        if let Some(idx) = self.deny_files.first_match(name.as_str()) {
            return get_cloned(&self.deny_file_strs, idx);
        }
        if let Some(idx) = self.deny_patterns.first_match(name.as_str()) {
            return Some(label(idx));
        }
        if let Some(idx) = self.deny_patterns.first_match(file_path) {
            return Some(label(idx));
        }
        None
    }

    /// Check whether a directory is denied by name; returns the matched pattern if so.
    pub fn dir_matches_deny(&self, dir_path: &str) -> (r: Option<String>)
        requires
            self.wf(),
        ensures
            opt_text(r) == self.dir_denial(dir_path@),
    {
        let name = file_name_or_default(dir_path);
        if let Some(idx) = self.deny_dirs.first_match(name.as_str()) {
            return get_cloned(&self.deny_dir_strs, idx);
        }
        None
    }

    /// Check whether a file is allowed (extension OR file pattern OR pattern).
    pub fn file_matches(&self, file_path: &str) -> (r: bool)
        requires
            self.wf(),
        ensures
            r == self.file_allowed(file_path@),
    {
        if let Some(ext) = dotted_extension_of(file_path) {
            if contains_string(&self.allow_extensions, &ext) {
                return true;
            }
        }
        let name = file_name_or_default(file_path);
        if self.allow_files.is_match(name.as_str()) {
            return true;
        }
        self.allow_patterns.is_match(name.as_str()) || self.allow_patterns.is_match(file_path)
    }

    /// Check whether a directory's name matches a directory allow pattern.
    pub fn dir_matches(&self, dir_path: &str) -> (r: bool)
        requires
            self.wf(),
        ensures
            r == self.dir_allowed(dir_path@),
    {
        let name = file_name_or_default(dir_path);
        self.allow_dirs.is_match(name.as_str())
    }

    /// Check if a directory path is in this rule's scope; a leading `./` is ignored so that
    /// scopes match however the scan root was written.
    pub fn matches_directory(&self, dir: &str) -> (r: bool)
        requires
            self.wf(),
        ensures
            r == self.in_scope(dir@),
    {
        let normalized = strip_dot_prefix(dir);
        crate::glob::glob_is_match(self.matcher.as_str(), normalized.as_str())
    }

    /// Check if a file name matches the naming convention; always true without one.
    pub fn filename_matches_naming_pattern(&self, file_path: &str) -> (r: bool)
        requires
            self.wf(),
        ensures
            r == self.name_conforms(file_path@),
    {
        match &self.naming_pattern {
            None => true,
            Some(re) => {
                let name = file_name_or_default(file_path);
                crate::glob::regex_is_match(re.as_str(), name.as_str())
            },
        }
    }
}

/// The view of an optional string.
pub open spec fn opt_text(s: Option<String>) -> Option<Seq<char>> {
    match s {
        Some(x) => Some(x@),
        None => None,
    }
}

/// The dotted extension of a path.
pub fn dotted_extension_of(p: &str) -> (r: Option<String>)
    ensures
        opt_text(r) == dotted_extension(p@),
{
    match extension(p) {
        Some(e) => {
            let d = concat2(".", e.as_str());
            proof {
                reveal_strlit(".");
            }
            assert(d@ =~= seq!['.'] + e@);
            Some(d)
        },
        None => None,
    }
}

/// Whether `v` holds a string equal to `s`.
pub fn contains_string(v: &Vec<String>, s: &String) -> (r: bool)
    ensures
        r == (v@.len() > 0 && strs(v@).contains(s@)),
{
    let mut i: usize = 0;
    while i < v.len()
        invariant
            0 <= i <= v.len(),
            forall|j: int| 0 <= j < i ==> v@[j]@ != s@,
        decreases v.len() - i,
    {
        let a = crate::text::chars_of(v[i].as_str());
        let b = crate::text::chars_of(s.as_str());
        if crate::text::chars_eq(&a, &b) {
            assert(strs(v@)[i as int] == s@);
            return true;
        }
        i = i + 1;
    }
    assert(!strs(v@).contains(s@)) by {
        if strs(v@).contains(s@) {
            let k = choose|k: int| 0 <= k < strs(v@).len() && strs(v@)[k] == s@;
            assert(v@[k]@ == strs(v@)[k]);
        }
    }
    false
}

/// A copy of `v[i]`, if there is one.
pub(crate) fn get_cloned(v: &Vec<String>, i: usize) -> (r: Option<String>)
    ensures
        opt_text(r) == get_text(strs(v@), i as int),
{
    if i < v.len() {
        Some(v[i].clone())
    } else {
        None
    }
}

fn label(idx: usize) -> (r: String)
    ensures
        r@ == pattern_label(idx as nat),
{
    let digits = u64_to_string(idx as u64);
    concat2("pattern #", digits.as_str())
}

/// Builder for allowlist rules.
pub struct AllowlistRuleBuilder {
    scope: String,
    allow_extensions: Vec<String>,
    allow_patterns: Vec<String>,
    allow_files: Vec<String>,
    allow_dirs: Vec<String>,
    deny_extensions: Vec<String>,
    deny_patterns: Vec<String>,
    deny_files: Vec<String>,
    deny_dirs: Vec<String>,
    naming_pattern: Option<String>,
}

/// Which setting of a builder a `with_*` call changes.
pub enum BuilderField {
    AllowExtensions,
    AllowPatterns,
    AllowFiles,
    AllowDirs,
    DenyExtensions,
    DenyPatterns,
    DenyFiles,
    DenyDirs,
}

/// The settings of a rule builder as plain values.
pub struct BuilderView {
    pub scope: Seq<char>,
    pub allow_extensions: Seq<Seq<char>>,
    pub allow_patterns: Seq<Seq<char>>,
    pub allow_files: Seq<Seq<char>>,
    pub allow_dirs: Seq<Seq<char>>,
    pub deny_extensions: Seq<Seq<char>>,
    pub deny_patterns: Seq<Seq<char>>,
    pub deny_files: Seq<Seq<char>>,
    pub deny_dirs: Seq<Seq<char>>,
    pub naming_pattern: Option<Seq<char>>,
}

impl View for AllowlistRuleBuilder {
    type V = BuilderView;

    closed spec fn view(&self) -> BuilderView {
        BuilderView {
            scope: self.scope@,
            allow_extensions: strs(self.allow_extensions@),
            allow_patterns: strs(self.allow_patterns@),
            allow_files: strs(self.allow_files@),
            allow_dirs: strs(self.allow_dirs@),
            deny_extensions: strs(self.deny_extensions@),
            deny_patterns: strs(self.deny_patterns@),
            deny_files: strs(self.deny_files@),
            deny_dirs: strs(self.deny_dirs@),
            naming_pattern: match self.naming_pattern {
                Some(p) => Some(p@),
                None => None,
            },
        }
    }
}

impl AllowlistRuleBuilder {
    /// The scope.
    pub open spec fn scope_spec(&self) -> Seq<char> {
        self@.scope
    }

    /// One of the list settings.
    pub open spec fn list(&self, f: BuilderField) -> Seq<Seq<char>> {
        match f {
            BuilderField::AllowExtensions => self@.allow_extensions,
            BuilderField::AllowPatterns => self@.allow_patterns,
            BuilderField::AllowFiles => self@.allow_files,
            BuilderField::AllowDirs => self@.allow_dirs,
            BuilderField::DenyExtensions => self@.deny_extensions,
            BuilderField::DenyPatterns => self@.deny_patterns,
            BuilderField::DenyFiles => self@.deny_files,
            BuilderField::DenyDirs => self@.deny_dirs,
        }
    }

    /// The naming regular expression.
    pub open spec fn naming_spec(&self) -> Option<Seq<char>> {
        self@.naming_pattern
    }

    /// Whether `other` has the same settings as `self` except possibly list `f`.
    pub open spec fn same_except(&self, other: AllowlistRuleBuilder, f: BuilderField) -> bool {
        &&& other.scope_spec() == self.scope_spec()
        &&& other.naming_spec() == self.naming_spec()
        &&& forall|g: BuilderField| g != f ==> #[trigger] other.list(g) == self.list(g)
    }

    /// A builder for the given scope with every list empty and no naming pattern.
    pub fn new(scope: String) -> (r: Self)
        ensures
            r.scope_spec() == scope@,
            forall|f: BuilderField| #[trigger] r.list(f) == Seq::<Seq<char>>::empty(),
            r.naming_spec() is None,
    {
        let r = AllowlistRuleBuilder {
            scope,
            allow_extensions: Vec::new(),
            allow_patterns: Vec::new(),
            allow_files: Vec::new(),
            allow_dirs: Vec::new(),
            deny_extensions: Vec::new(),
            deny_patterns: Vec::new(),
            deny_files: Vec::new(),
            deny_dirs: Vec::new(),
            naming_pattern: None,
        };
        assert forall|f: BuilderField| #[trigger] r.list(f) == Seq::<Seq<char>>::empty() by {
            assert(strs(Seq::<String>::empty()) =~= Seq::<Seq<char>>::empty());
        }
        r
    }

    /// Set the allowed extensions.
    pub fn with_extensions(self, extensions: Vec<String>) -> (r: Self)
        ensures
            self.same_except(r, BuilderField::AllowExtensions),
            r.list(BuilderField::AllowExtensions) == strs(extensions@),
    {
        let mut r = self;
        r.allow_extensions = extensions;
        r
    }

    /// Set the allowed patterns.
    pub fn with_patterns(self, patterns: Vec<String>) -> (r: Self)
        ensures
            self.same_except(r, BuilderField::AllowPatterns),
            r.list(BuilderField::AllowPatterns) == strs(patterns@),
    {
        let mut r = self;
        r.allow_patterns = patterns;
        r
    }

    /// Set the allowed file-name patterns.
    pub fn with_allow_files(self, patterns: Vec<String>) -> (r: Self)
        ensures
            self.same_except(r, BuilderField::AllowFiles),
            r.list(BuilderField::AllowFiles) == strs(patterns@),
    {
        let mut r = self;
        r.allow_files = patterns;
        r
    }

    /// Set the allowed directory-name patterns.
    pub fn with_allow_dirs(self, patterns: Vec<String>) -> (r: Self)
        ensures
            self.same_except(r, BuilderField::AllowDirs),
            r.list(BuilderField::AllowDirs) == strs(patterns@),
    {
        let mut r = self;
        r.allow_dirs = patterns;
        r
    }

    /// Set the denied extensions.
    pub fn with_deny_extensions(self, extensions: Vec<String>) -> (r: Self)
        ensures
            self.same_except(r, BuilderField::DenyExtensions),
            r.list(BuilderField::DenyExtensions) == strs(extensions@),
    {
        let mut r = self;
        r.deny_extensions = extensions;
        r
    }

    /// Set the denied patterns.
    pub fn with_deny_patterns(self, patterns: Vec<String>) -> (r: Self)
        ensures
            self.same_except(r, BuilderField::DenyPatterns),
            r.list(BuilderField::DenyPatterns) == strs(patterns@),
    {
        let mut r = self;
        r.deny_patterns = patterns;
        r
    }

    /// Set the denied file-name patterns.
    pub fn with_deny_files(self, patterns: Vec<String>) -> (r: Self)
        ensures
            self.same_except(r, BuilderField::DenyFiles),
            r.list(BuilderField::DenyFiles) == strs(patterns@),
    {
        let mut r = self;
        r.deny_files = patterns;
        r
    }

    /// Set the denied directory-name patterns.
    pub fn with_deny_dirs(self, patterns: Vec<String>) -> (r: Self)
        ensures
            self.same_except(r, BuilderField::DenyDirs),
            r.list(BuilderField::DenyDirs) == strs(patterns@),
    {
        let mut r = self;
        r.deny_dirs = patterns;
        r
    }

    /// Set the naming regular expression.
    pub fn with_naming_pattern(self, pattern: Option<String>) -> (r: Self)
        ensures
            r.scope_spec() == self.scope_spec(),
            forall|f: BuilderField| #[trigger] r.list(f) == self.list(f),
            r.naming_spec() == opt_text(pattern),
    {
        let mut r = self;
        r.naming_pattern = pattern;
        r
    }

    /// The first glob of the builder that does not compile, in the order in which `build`
    /// compiles them: the scope, then the allowed patterns, file patterns and directory
    /// patterns, then the denied patterns, file patterns and directory patterns; each list is
    /// reported by its first invalid pattern, or by its name when its set cannot be built.
    pub open spec fn first_bad_glob(&self) -> Option<Seq<char>> {
        let lists = seq![
            self.list(BuilderField::AllowPatterns),
            self.list(BuilderField::AllowFiles),
            self.list(BuilderField::AllowDirs),
            self.list(BuilderField::DenyPatterns),
            self.list(BuilderField::DenyFiles),
            self.list(BuilderField::DenyDirs),
        ];
        if !glob_valid(self.scope_spec()) {
            Some(self.scope_spec())
        } else {
            first_bad_in_lists(lists, list_labels(), 0)
        }
    }

    /// Whether `rule` holds exactly the settings of this builder, compiled.
    pub open spec fn built(&self, rule: AllowlistRule) -> bool {
        &&& rule.wf()
        &&& rule@ == (RuleView {
            scope: self.scope_spec(),
            scope_glob: self.scope_spec(),
            allow_extensions: self.list(BuilderField::AllowExtensions),
            allow_patterns: self.list(BuilderField::AllowPatterns),
            allow_files: self.list(BuilderField::AllowFiles),
            allow_file_strs: self.list(BuilderField::AllowFiles),
            allow_dirs: self.list(BuilderField::AllowDirs),
            allow_dir_strs: self.list(BuilderField::AllowDirs),
            deny_extensions: self.list(BuilderField::DenyExtensions),
            deny_patterns: self.list(BuilderField::DenyPatterns),
            deny_files: self.list(BuilderField::DenyFiles),
            deny_file_strs: self.list(BuilderField::DenyFiles),
            deny_dirs: self.list(BuilderField::DenyDirs),
            deny_dir_strs: self.list(BuilderField::DenyDirs),
            naming_regex: self.naming_spec(),
            naming_text: self.naming_spec(),
        })
    }

    /// Compile the rule. Fails with `InvalidPattern` naming the first glob that does not
    /// compile (see `first_bad_glob`), or else with a `Config` error when the naming pattern is
    /// not a valid regular expression.
    #[verifier::spinoff_prover]
    #[verifier::rlimit(50)]
    pub fn build(self) -> (r: Result<AllowlistRule, SlocGuardError>)
        ensures
            match r {
                Ok(rule) => self.first_bad_glob() is None && (self.naming_spec() matches Some(p)
                    ==> regex_valid(p)) && self.built(rule),
                Err(e) => match self.first_bad_glob() {
                    Some(p) => e.pattern_text() == Some(p),
                    None => self.naming_spec() matches Some(p) && !regex_valid(p) && e is Config
                        && e->Config_0@ == "Invalid naming pattern regex '"@ + p + "': "@
                        + regex_compile_error(p)->0,
                },
            },
    {
        let ghost old_self = self;
        proof {
            lemma_list_labels();
        }
        let ghost lists = seq![
            self.list(BuilderField::AllowPatterns),
            self.list(BuilderField::AllowFiles),
            self.list(BuilderField::AllowDirs),
            self.list(BuilderField::DenyPatterns),
            self.list(BuilderField::DenyFiles),
            self.list(BuilderField::DenyDirs),
        ];
        if !crate::glob::glob_parses(self.scope.as_str()) {
            return Err(SlocGuardError::InvalidPattern { pattern: self.scope.clone() });
        }
        let matcher = self.scope.clone();
        let allow_patterns = match GlobList::build(&self.allow_patterns, "allow_patterns") {
            Ok(g) => g,
            Err(e) => {
                proof {
                    lemma_first_bad_at(lists, list_labels(), 0);
                }
                return Err(e);
            },
        };
        let allow_files = match GlobList::build(&self.allow_files, "allow_files") {
            Ok(g) => g,
            Err(e) => {
                proof {
                    lemma_first_bad_at(lists, list_labels(), 1);
                }
                return Err(e);
            },
        };
        let allow_dirs = match GlobList::build(&self.allow_dirs, "allow_dirs") {
            Ok(g) => g,
            Err(e) => {
                proof {
                    lemma_first_bad_at(lists, list_labels(), 2);
                }
                return Err(e);
            },
        };
        let deny_patterns = match GlobList::build(&self.deny_patterns, "deny_patterns") {
            Ok(g) => g,
            Err(e) => {
                proof {
                    lemma_first_bad_at(lists, list_labels(), 3);
                }
                return Err(e);
            },
        };
        let deny_files = match GlobList::build(&self.deny_files, "deny_files") {
            Ok(g) => g,
            Err(e) => {
                proof {
                    lemma_first_bad_at(lists, list_labels(), 4);
                }
                return Err(e);
            },
        };
        let deny_dirs = match GlobList::build(&self.deny_dirs, "deny_dirs") {
            Ok(g) => g,
            Err(e) => {
                proof {
                    lemma_first_bad_at(lists, list_labels(), 5);
                }
                return Err(e);
            },
        };
        proof {
            lemma_first_bad_at(lists, list_labels(), 6);
        }
        let naming_pattern = match &self.naming_pattern {
            Some(p) => match crate::glob::regex_error(p.as_str()) {
                None => Some(p.clone()),
                Some(err) => {
                    let mut msg = String::from_str("Invalid naming pattern regex '");
                    msg.append(p.as_str());
                    msg.append("': ");
                    msg.append(err.as_str());
                    return Err(SlocGuardError::Config(msg));
                },
            },
            None => None,
        };
        let rule = AllowlistRule {
            scope: self.scope,
            matcher,
            allow_extensions: self.allow_extensions,
            allow_patterns,
            allow_files,
            allow_file_strs: self.allow_files,
            allow_dirs,
            allow_dir_strs: self.allow_dirs,
            deny_extensions: self.deny_extensions,
            deny_patterns,
            deny_files,
            deny_file_strs: self.deny_files,
            deny_dirs,
            deny_dir_strs: self.deny_dirs,
            naming_pattern,
            naming_pattern_str: self.naming_pattern,
        };
        Ok(rule)
    }
}

/// The names by which the sets of a rule's pattern lists are reported.
pub open spec fn list_labels() -> Seq<Seq<char>> {
    seq![
        "allow_patterns"@,
        "allow_files"@,
        "allow_dirs"@,
        "deny_patterns"@,
        "deny_files"@,
        "deny_dirs"@,
    ]
}

proof fn lemma_list_labels()
    ensures
        list_labels().len() == 6,
        list_labels()[0] == "allow_patterns"@,
        list_labels()[1] == "allow_files"@,
        list_labels()[2] == "allow_dirs"@,
        list_labels()[3] == "deny_patterns"@,
        list_labels()[4] == "deny_files"@,
        list_labels()[5] == "deny_dirs"@,
{
}

/// The first error among the lists from index `k` on, each list checked in full (see
/// `glob_list_error`) before the next.
pub open spec fn first_bad_in_lists(
    lists: Seq<Seq<Seq<char>>>,
    labels: Seq<Seq<char>>,
    k: int,
) -> Option<Seq<char>>
    decreases lists.len() - k,
{
    if k < 0 || k >= lists.len() {
        None
    } else if glob_list_error(lists[k], labels[k]) is Some {
        glob_list_error(lists[k], labels[k])
    } else {
        first_bad_in_lists(lists, labels, k + 1)
    }
}

proof fn lemma_first_bad_at(lists: Seq<Seq<Seq<char>>>, labels: Seq<Seq<char>>, k: int)
    requires
        0 <= k <= lists.len(),
        forall|j: int| 0 <= j < k ==> glob_list_error(#[trigger] lists[j], labels[j]) is None,
    ensures
        first_bad_in_lists(lists, labels, 0) == first_bad_in_lists(lists, labels, k),
    decreases k,
{
    if k > 0 {
        lemma_first_bad_at(lists, labels, k - 1);
    }
}

} // verus!
