//! Glob matching in the namespace of logical (configuration-root-relative) paths.
use vstd::prelude::*;

use crate::error::SlocGuardError;
use crate::glob::{any_glob_matches, glob_matches, glob_valid, strs, GlobList};
use crate::path_utils::{file_name, file_name_of};
use crate::project::{normalize_for_matching, normalized, path_qualified, pattern_is_path_qualified};
use crate::text::{chars_of, concat2, string_from_range};

verus! {

/// Compile a configuration-root-relative path glob: the pattern normalized like logical
/// paths. An invalid result is reported with the pattern as the user wrote it.
pub fn compile_logical_path_glob(pattern: &str) -> (r: Result<String, SlocGuardError>)
    ensures
        match r {
            Ok(g) => g@ == normalized(pattern@) && glob_valid(g@),
            Err(e) => !glob_valid(normalized(pattern@)) && e.pattern_text() == Some(pattern@),
        },
{
    let normalized_pattern = normalize_for_matching(pattern);
    if crate::glob::glob_parses(normalized_pattern.as_str()) {
        Ok(normalized_pattern)
    } else {
        Err(SlocGuardError::InvalidPattern { pattern: String::from_str(pattern) })
    }
}

/// Index of the first pattern whose logical normalization is not a valid glob, or -1.
pub open spec fn first_invalid_logical(patterns: Seq<Seq<char>>) -> int {
    if forall|i: int| 0 <= i < patterns.len() ==> glob_valid(normalized(#[trigger] patterns[i])) {
        -1
    } else {
        choose|i: int|
            0 <= i < patterns.len() && !glob_valid(normalized(patterns[i])) && forall|j: int|
                0 <= j < i ==> glob_valid(normalized(#[trigger] patterns[j]))
    }
}

/// Why a logical glob list cannot be built from `patterns`, if it cannot: the first pattern
/// whose normalization does not parse (as the user wrote it), else `set_label` when the set of
/// the normalized patterns cannot be built.
pub open spec fn logical_list_error(patterns: Seq<Seq<char>>, set_label: Seq<char>) -> Option<
    Seq<char>,
> {
    if first_invalid_logical(patterns) >= 0 {
        Some(patterns[first_invalid_logical(patterns)])
    } else if !crate::glob::glob_set_compiles(
        patterns.map_values(|p: Seq<char>| normalized(p)),
    ) {
        Some(set_label)
    } else {
        None
    }
}

/// Compiles each configuration-root-relative pattern into the logical namespace; the first
/// invalid pattern is reported as the user wrote it, and `set_label` when the set cannot be
/// built.
pub fn build_logical_glob_list(patterns: &Vec<String>, set_label: &str) -> (r: Result<
    GlobList,
    SlocGuardError,
>)
    ensures
        match r {
            Ok(list) => logical_list_error(strs(patterns@), set_label@) is None && list.wf()
                && list@ == strs(patterns@).map_values(|p: Seq<char>| normalized(p)),
            Err(e) => logical_list_error(strs(patterns@), set_label@) is Some && e.pattern_text()
                == logical_list_error(strs(patterns@), set_label@),
        },
{
    let ghost ps = strs(patterns@);
    let mut out: Vec<String> = Vec::new();
    let mut i: usize = 0;
    while i < patterns.len()
        invariant
            0 <= i <= patterns.len(),
            ps == strs(patterns@),
            strs(out@) == ps.take(i as int).map_values(|p: Seq<char>| normalized(p)),
            forall|j: int| 0 <= j < i ==> glob_valid(normalized(#[trigger] ps[j])),
        decreases patterns.len() - i,
    {
        assert(ps[i as int] == patterns@[i as int]@);
        match compile_logical_path_glob(patterns[i].as_str()) {
            Ok(g) => {
                let ghost before = strs(out@);
                out.push(g);
                assert(strs(out@) =~= before.push(normalized(ps[i as int])));
                assert(ps.take(i + 1).map_values(|p: Seq<char>| normalized(p)) =~= ps.take(
                    i as int,
                ).map_values(|p: Seq<char>| normalized(p)).push(normalized(ps[i as int])));
            },
            Err(e) => {
                let ghost k = i as int;
                assert(first_invalid_logical(ps) == k) by {
                    let c = first_invalid_logical(ps);
                    assert(c >= 0);
                    if c < k {
                        assert(glob_valid(normalized(ps[c])));
                    } else if c > k {
                        assert(glob_valid(normalized(ps[k])));
                    }
                }
                return Err(e);
            },
        }
        i = i + 1;
    }
    assert(ps.take(patterns.len() as int) =~= ps);
    let ghost ns = ps.map_values(|p: Seq<char>| normalized(p));
    assert(crate::glob::first_invalid(ns) == -1) by {
        assert(forall|j: int| 0 <= j < ns.len() ==> glob_valid(#[trigger] ns[j]));
    }
    match GlobList::build(&out, set_label) {
        Ok(l) => Ok(l),
        Err(e) => Err(e),
    }
}

/// Compiles configuration-root-relative patterns into one logical glob set; the first invalid
/// pattern is reported as written, and "combined logical path patterns" when the set cannot be
/// built.
pub fn build_logical_path_glob_set(patterns: &Vec<String>) -> (r: Result<GlobList, SlocGuardError>)
    ensures
        match r {
            Ok(list) => logical_list_error(strs(patterns@), "combined logical path patterns"@)
                is None && list.wf() && list@ == strs(patterns@).map_values(
                |p: Seq<char>| normalized(p),
            ),
            Err(e) => logical_list_error(strs(patterns@), "combined logical path patterns"@)
                is Some && e.pattern_text() == logical_list_error(
                strs(patterns@),
                "combined logical path patterns"@,
            ),
        },
{
    build_logical_glob_list(patterns, "combined logical path patterns")
}

/// Whether pattern `i` of a logical glob list counts as a match for `path`: it matches the
/// normalized path, or it is not path-qualified (per the authored pattern `original[i]`,
/// missing ones counting as unqualified) and matches the path's file name.
pub open spec fn logical_glob_hit(
    globs: Seq<Seq<char>>,
    original: Seq<Seq<char>>,
    path: Seq<char>,
    i: int,
) -> bool {
    let n = normalized(path);
    ||| glob_matches(globs[i], n)
    ||| (file_name_of(n) is Some && glob_matches(globs[i], file_name_of(n)->0) && !(0 <= i
        < original.len() && path_qualified(original[i])))
}

/// Indices `i` in `from..globs.len()` with `logical_glob_hit`, in increasing order.
pub open spec fn logical_hits_from(
    globs: Seq<Seq<char>>,
    original: Seq<Seq<char>>,
    path: Seq<char>,
    from: int,
) -> Seq<usize>
    decreases globs.len() - from,
{
    if from >= globs.len() || from < 0 {
        Seq::empty()
    } else if logical_glob_hit(globs, original, path, from) {
        seq![from as usize] + logical_hits_from(globs, original, path, from + 1)
    } else {
        logical_hits_from(globs, original, path, from + 1)
    }
}

/// The indices of the patterns that match a logical path, in increasing order. Every pattern
/// is tried on the full normalized path; patterns without an explicit path component (per the
/// authored text in `original_patterns`) are also tried on the file name, so `temp_*` still
/// matches `nested/temp_cache` while `./root.rs` does not match `nested/root.rs`.
pub fn matching_logical_path_globs(matcher: &GlobList, original_patterns: &Vec<String>, path: &str) -> (r:
    Vec<usize>)
    requires
        matcher.wf(),
    ensures
        r@ == logical_hits_from(matcher@, strs(original_patterns@), path@, 0),
{
    let normalized_path = normalize_for_matching(path);
    let name = file_name(normalized_path.as_str());
    let full = matcher.matches(normalized_path.as_str());
    let by_name: Vec<usize> = match &name {
        Some(n) => matcher.matches(n.as_str()),
        None => Vec::new(),
    };
    let ghost g = matcher@;
    let ghost o = strs(original_patterns@);
    let mut out: Vec<usize> = Vec::new();
    let mut i: usize = 0;
    while i < matcher.len()
        invariant
            0 <= i <= g.len(),
            g == matcher@,
            matcher.wf(),
            o == strs(original_patterns@),
            normalized_path@ == normalized(path@),
            full@ == crate::glob::matching_indices_from(g, normalized(path@), 0),
            match &name {
                Some(n) => file_name_of(normalized(path@)) == Some(n@)
                    && by_name@ == crate::glob::matching_indices_from(g, n@, 0),
                None => file_name_of(normalized(path@)) is None,
            },
            out@ + logical_hits_from(g, o, path@, i as int) == logical_hits_from(g, o, path@, 0),
        decreases g.len() - i,
    {
        let hit_full = contains_index(&full, i);
        let mut hit = hit_full;
        if !hit {
            if let Some(n) = &name {
                if contains_index(&by_name, i) {
                    let qualified = i < original_patterns.len() && pattern_is_path_qualified(
                        original_patterns[i].as_str(),
                    );
                    if i < original_patterns.len() {
                        assert(o[i as int] == original_patterns@[i as int]@);
                    }
                    hit = !qualified;
                }
            }
        }
        proof {
            crate::glob::lemma_matching_indices_contains(g, normalized(path@), 0, i as int);
            if name is Some {
                crate::glob::lemma_matching_indices_contains(g, name->0@, 0, i as int);
            }
        }
        assert(hit == logical_glob_hit(g, o, path@, i as int));
        let ghost before = out@;
        if hit {
            out.push(i);
            assert(before + logical_hits_from(g, o, path@, i as int) =~= out@ + logical_hits_from(
                g,
                o,
                path@,
                i + 1,
            ));
        }
        i = i + 1;
    }
    assert(out@ + Seq::<usize>::empty() =~= out@);
    out
}

fn contains_index(v: &Vec<usize>, x: usize) -> (r: bool)
    ensures
        r == v@.contains(x),
{
    let mut i: usize = 0;
    while i < v.len()
        invariant
            0 <= i <= v.len(),
            forall|j: int| 0 <= j < i ==> v@[j] != x,
        decreases v.len() - i,
    {
        if v[i] == x {
            return true;
        }
        i = i + 1;
    }
    false
}

/// `s` without all of its trailing `/` and `\` characters.
pub open spec fn trim_trailing_seps(s: Seq<char>) -> Seq<char>
    decreases s.len(),
{
    if s.len() > 0 && (s.last() == '/' || s.last() == '\\') {
        trim_trailing_seps(s.drop_last())
    } else {
        s
    }
}

/// Compiled matcher for a directory-scope pattern: plain glob semantics (`X` exact, `X/*`
/// direct children, `X/**` strict descendants), except that a trailing separator selects the
/// subtree (`X/` matches `X` itself and every descendant).
#[derive(Debug, Clone)]
pub enum ScopeMatcher {
    /// Scope without a trailing separator: the normalized glob.
    Pattern(String),
    /// Trailing-separator scope: the base directory and the glob of all its descendants.
    Subtree { base: String, descendants: String },
}

/// The descendant glob of a subtree base: `**` for the root (empty base), else `<base>/**`.
pub open spec fn descendants_glob(base: Seq<char>) -> Seq<char> {
    if base.len() == 0 {
        seq!['*', '*']
    } else {
        base + seq!['/', '*', '*']
    }
}

impl ScopeMatcher {
    /// Whether the matcher selects the normalized logical directory `path`.
    pub open spec fn selects(&self, path: Seq<char>) -> bool {
        match self {
            ScopeMatcher::Pattern(p) => glob_matches(p@, path),
            ScopeMatcher::Subtree { base, descendants } => glob_matches(base@, path)
                || glob_matches(descendants@, path),
        }
    }

    /// The matcher compiled from `scope`.
    pub open spec fn compiled_from(&self, scope: Seq<char>) -> bool {
        let trimmed = trim_trailing_seps(scope);
        if trimmed.len() == scope.len() {
            self matches ScopeMatcher::Pattern(p) && p@ == normalized(scope) && glob_valid(p@)
        } else {
            let base = normalized(trimmed);
            &&& self matches ScopeMatcher::Subtree { base: b, descendants: d }
            &&& b@ == base
            &&& d@ == descendants_glob(base)
            &&& glob_valid(b@)
            &&& glob_valid(d@)
        }
    }

    /// Whether every glob of the matcher is valid.
    pub open spec fn wf(&self) -> bool {
        match self {
            ScopeMatcher::Pattern(p) => glob_valid(p@),
            ScopeMatcher::Subtree { base, descendants } => glob_valid(base@) && glob_valid(
                descendants@,
            ),
        }
    }

    /// Compile a configuration-root-relative directory-scope pattern. An invalid glob is
    /// reported with the scope as the user wrote it.
    pub fn compile(scope: &str) -> (r: Result<ScopeMatcher, SlocGuardError>)
        ensures
            match r {
                Ok(m) => m.compiled_from(scope@) && m.wf(),
                Err(e) => e.pattern_text() == Some(scope@) && ({
                    let trimmed = trim_trailing_seps(scope@);
                    if trimmed.len() == scope@.len() {
                        !glob_valid(normalized(scope@))
                    } else {
                        !glob_valid(normalized(trimmed)) || !glob_valid(
                            descendants_glob(normalized(trimmed)),
                        )
                    }
                }),
            },
    {
        let v = chars_of(scope);
        let mut n = v.len();
        assert(v@.take(n as int) =~= v@);
        while n > 0 && (v[n - 1] == '/' || v[n - 1] == '\\')
            invariant
                0 <= n <= v.len(),
                v@ == scope@,
                trim_trailing_seps(v@) == trim_trailing_seps(v@.take(n as int)),
            decreases n,
        {
            assert(v@.take(n as int).drop_last() =~= v@.take(n - 1));
            n = n - 1;
        }
        let ghost trimmed = v@.take(n as int);
        assert(trim_trailing_seps(v@) == trimmed) by {
            if n > 0 {
                assert(trimmed.last() == v@[n - 1]);
            }
        }
        if n == v.len() {
            return match compile_logical_path_glob(scope) {
                Ok(g) => Ok(ScopeMatcher::Pattern(g)),
                Err(e) => Err(e),
            };
        }
        let trimmed_str = string_from_range(&v, 0, n);
        assert(trimmed_str@ =~= trimmed);
        let base = normalize_for_matching(trimmed_str.as_str());
        let base_chars = chars_of(base.as_str());
        let descendants = if base_chars.len() == 0 {
            let d = String::from_str("**");
            proof {
                reveal_strlit("**");
            }
            assert(d@ =~= seq!['*', '*']);
            d
        } else {
            let d = concat2(base.as_str(), "/**");
            proof {
                reveal_strlit("/**");
            }
            assert(d@ =~= base@ + seq!['/', '*', '*']);
            d
        };
        let mut both: Vec<String> = Vec::new();
        both.push(base);
        both.push(descendants);
        if crate::glob::glob_parses(both[0].as_str()) && crate::glob::glob_parses(
            both[1].as_str(),
        ) {
            let d = both.pop().unwrap();
            let b = both.pop().unwrap();
            Ok(ScopeMatcher::Subtree { base: b, descendants: d })
        } else {
            Err(SlocGuardError::InvalidPattern { pattern: String::from_str(scope) })
        }
    }

    /// Whether a normalized logical directory path falls inside this scope.
    pub fn is_match(&self, logical_path: &str) -> (r: bool)
        requires
            self.wf(),
        ensures
            r == self.selects(logical_path@),
    {
        match self {
            ScopeMatcher::Pattern(p) => matches_one_glob(p, logical_path),
            ScopeMatcher::Subtree { base, descendants } => matches_one_glob(base, logical_path) || matches_one_glob(
                descendants,
                logical_path,
            ),
        }
    }
}

/// Whether the single valid glob `pattern` matches `path`.
pub fn matches_one_glob(pattern: &String, path: &str) -> (r: bool)
    requires
        glob_valid(pattern@),
    ensures
        r == glob_matches(pattern@, path@),
{
    crate::glob::glob_is_match(pattern.as_str(), path)
}

} // verus!
