//! Glob and regular-expression matching, and ordered lists of glob patterns.
//!
//! Pattern syntax and matching are those of the `globset` and `regex` crates. Their results
//! are named here (`glob_valid`, `glob_matches`, `regex_compile_error`, `regex_matches`) and the rest
//! of the library is verified against those names.
use vstd::prelude::*;

use crate::error::SlocGuardError;
use vstd::string::StringExecFns;

verus! {

/// Whether `globset` accepts `pattern` as a glob (`Glob::new` succeeds).
pub uninterp spec fn glob_valid(pattern: Seq<char>) -> bool;

/// Whether the glob `pattern` matches the path `path` (`GlobMatcher::is_match`).
pub uninterp spec fn glob_matches(pattern: Seq<char>, path: Seq<char>) -> bool;

/// What `regex::Regex::new(pattern)` reports: `None` when the pattern compiles, else the text
/// of its error.
pub uninterp spec fn regex_compile_error(pattern: Seq<char>) -> Option<Seq<char>>;

/// Whether `regex` accepts `pattern` (`Regex::new` succeeds).
pub open spec fn regex_valid(pattern: Seq<char>) -> bool {
    regex_compile_error(pattern) is None
}

/// Whether the regular expression `pattern` matches somewhere in `text` (`Regex::is_match`).
pub uninterp spec fn regex_matches(pattern: Seq<char>, text: Seq<char>) -> bool;

/// `globset::Glob::new(pattern)`: whether the pattern parses as a glob. The claim is that the
/// answer is `glob_valid(pattern)`, a function of the pattern alone.
#[verifier::external_body]
pub(crate) fn glob_parses(pattern: &str) -> (r: bool)
    ensures
        r == glob_valid(pattern@),
{
    globset::Glob::new(pattern).is_ok()
}

/// `GlobMatcher::is_match` of the matcher that `Glob::new(pattern)` compiles, on `path`. The
/// claim is that the answer is `glob_matches(pattern, path)`, a function of the two alone.
#[verifier::external_body]
pub(crate) fn glob_is_match(pattern: &str, path: &str) -> (r: bool)
    requires
        glob_valid(pattern@),
    ensures
        r == glob_matches(pattern@, path@),
{
    match globset::Glob::new(pattern) {
        Ok(glob) => glob.compile_matcher().is_match(path),
        Err(_) => false,
    }
}

/// `regex::Regex::new(pattern)`: `None` when the pattern compiles, else the error's `Display`
/// text. The claim is that this is `regex_compile_error(pattern)`, a function of the pattern
/// alone.
#[verifier::external_body]
pub(crate) fn regex_error(pattern: &str) -> (r: Option<String>)
    ensures
        match r {
            None => regex_compile_error(pattern@) is None,
            Some(t) => regex_compile_error(pattern@) == Some(t@),
        },
{
    match regex::Regex::new(pattern) {
        Ok(_) => None,
        Err(e) => Some(e.to_string()),
    }
}

/// `Regex::is_match` of the compiled `pattern` on `text`. The claim is that the answer is
/// `regex_matches(pattern, text)`, a function of the two alone.
#[verifier::external_body]
pub(crate) fn regex_is_match(pattern: &str, text: &str) -> (r: bool)
    requires
        regex_valid(pattern@),
    ensures
        r == regex_matches(pattern@, text@),
{
    match regex::Regex::new(pattern) {
        Ok(re) => re.is_match(text),
        Err(_) => false,
    }
}

/// Whether some pattern of `patterns` matches `path`.
pub open spec fn any_glob_matches(patterns: Seq<Seq<char>>, path: Seq<char>) -> bool {
    exists|i: int| 0 <= i < patterns.len() && glob_matches(#[trigger] patterns[i], path)
}

/// Indices `i` in `from..patterns.len()` whose pattern matches `path`, in increasing order.
pub open spec fn matching_indices_from(patterns: Seq<Seq<char>>, path: Seq<char>, from: int) -> Seq<
    usize,
>
    decreases patterns.len() - from,
{
    if from >= patterns.len() || from < 0 {
        Seq::empty()
    } else if glob_matches(patterns[from], path) {
        seq![from as usize] + matching_indices_from(patterns, path, from + 1)
    } else {
        matching_indices_from(patterns, path, from + 1)
    }
}

/// Index of the first pattern of `patterns` that matches `path`, or -1.
pub open spec fn first_matching(patterns: Seq<Seq<char>>, path: Seq<char>, from: int) -> int
    decreases patterns.len() - from,
{
    if from >= patterns.len() || from < 0 {
        -1
    } else if glob_matches(patterns[from], path) {
        from
    } else {
        first_matching(patterns, path, from + 1)
    }
}

/// An index belongs to `matching_indices_from(patterns, path, from)` exactly when it is at
/// least `from`, within the list, and its pattern matches.
pub proof fn lemma_matching_indices_contains(
    patterns: Seq<Seq<char>>,
    path: Seq<char>,
    from: int,
    i: int,
)
    requires
        0 <= from,
        0 <= i,
        i <= usize::MAX,
        patterns.len() <= usize::MAX,
    ensures
        matching_indices_from(patterns, path, from).contains(i as usize) <==> (from <= i
            < patterns.len() && glob_matches(patterns[i], path)),
    decreases patterns.len() - from,
{
    if from < patterns.len() {
        lemma_matching_indices_contains(patterns, path, from + 1, i);
        let rest = matching_indices_from(patterns, path, from + 1);
        if glob_matches(patterns[from], path) {
            let all = seq![from as usize] + rest;
            assert(all[0] == from as usize);
            if rest.contains(i as usize) {
                let k = choose|k: int| 0 <= k < rest.len() && rest[k] == i as usize;
                assert(all[k + 1] == rest[k]);
            }
            if all.contains(i as usize) && i != from {
                let k = choose|k: int| 0 <= k < all.len() && all[k] == i as usize;
                assert(k > 0);
                assert(rest[k - 1] == all[k]);
            }
        }
        if i == from && !glob_matches(patterns[from], path) {
            lemma_matching_indices_ge(patterns, path, from + 1);
        }
    }
}

/// Every index in `matching_indices_from(patterns, path, from)` is at least `from`.
pub proof fn lemma_matching_indices_ge(patterns: Seq<Seq<char>>, path: Seq<char>, from: int)
    requires
        0 <= from,
        patterns.len() <= usize::MAX,
    ensures
        forall|k: int|
            0 <= k < matching_indices_from(patterns, path, from).len() ==> (#[trigger] matching_indices_from(
                patterns,
                path,
                from,
            )[k]) as int >= from,
    decreases patterns.len() - from,
{
    if from < patterns.len() {
        lemma_matching_indices_ge(patterns, path, from + 1);
        let rest = matching_indices_from(patterns, path, from + 1);
        if glob_matches(patterns[from], path) {
            let all = seq![from as usize] + rest;
            assert forall|k: int| 0 <= k < all.len() implies (#[trigger] all[k]) as int >= from by {
                if k > 0 {
                    assert(all[k] == rest[k - 1]);
                }
            }
        }
    }
}

/// `globset::GlobSet`, a set of globs matched together in one pass.
#[verifier::external_type_specification]
#[verifier::external_body]
pub struct ExGlobSet(globset::GlobSet);

/// `globset::GlobSetBuilder`, the patterns of a set before it is built.
#[verifier::external_type_specification]
#[verifier::external_body]
pub struct ExGlobSetBuilder(globset::GlobSetBuilder);

/// The patterns a `GlobSet` was built from, by sequence number.
pub uninterp spec fn set_patterns(set: globset::GlobSet) -> Seq<Seq<char>>;

/// The patterns added to a `GlobSetBuilder`, in order.
pub uninterp spec fn builder_patterns(builder: globset::GlobSetBuilder) -> Seq<Seq<char>>;

/// Whether `GlobSetBuilder::build` succeeds on these patterns (it fails only when the regular
/// expressions it combines them into cannot be compiled).
pub uninterp spec fn glob_set_compiles(patterns: Seq<Seq<char>>) -> bool;

/// `GlobSetBuilder::new()`: a builder holding no pattern.
#[verifier::external_body]
fn glob_set_builder() -> (r: globset::GlobSetBuilder)
    ensures
        builder_patterns(r) == Seq::<Seq<char>>::empty(),
{
    globset::GlobSetBuilder::new()
}

/// `GlobSetBuilder::add` of the glob `pattern` (compiled with `Glob::new`): the pattern comes
/// after those already added.
#[verifier::external_body]
fn glob_set_add(builder: &mut globset::GlobSetBuilder, pattern: &str)
    requires
        glob_valid(pattern@),
    ensures
        builder_patterns(*final(builder)) == builder_patterns(*old(builder)).push(pattern@),
{
    if let Ok(glob) = globset::Glob::new(pattern) {
        builder.add(glob);
    }
}

/// `GlobSetBuilder::build`: the set of the added patterns, or `None` when it cannot be built.
/// The claim is that success is `glob_set_compiles` of the patterns, a function of them alone.
#[verifier::external_body]
fn glob_set_build(builder: &globset::GlobSetBuilder) -> (r: Option<globset::GlobSet>)
    ensures
        match r {
            Some(set) => glob_set_compiles(builder_patterns(*builder)) && set_patterns(set)
                == builder_patterns(*builder),
            None => !glob_set_compiles(builder_patterns(*builder)),
        },
{
    builder.build().ok()
}

/// `GlobSet::empty()`: the set of no pattern; a builder of no pattern builds one too.
#[verifier::external_body]
fn glob_set_empty() -> (r: globset::GlobSet)
    ensures
        set_patterns(r) == Seq::<Seq<char>>::empty(),
        glob_set_compiles(set_patterns(r)),
{
    globset::GlobSet::empty()
}

/// `GlobSet::clone`: the same patterns.
#[verifier::external_body]
fn glob_set_clone(set: &globset::GlobSet) -> (r: globset::GlobSet)
    ensures
        set_patterns(r) == set_patterns(*set),
{
    set.clone()
}

/// `GlobSet::is_match`: whether some glob of the set matches `path`, as the glob alone would.
#[verifier::external_body]
fn glob_set_is_match(set: &globset::GlobSet, path: &str) -> (r: bool)
    ensures
        r == any_glob_matches(set_patterns(*set), path@),
{
    set.is_match(path)
}

/// `GlobSet::matches`: the sequence numbers of the globs that match `path`, ascending.
#[verifier::external_body]
fn glob_set_matches(set: &globset::GlobSet, path: &str) -> (r: Vec<usize>)
    ensures
        r@ == matching_indices_from(set_patterns(*set), path@, 0),
{
    set.matches(path)
}

/// The first index of `matching_indices_from` is `first_matching`, and there is one exactly
/// when some pattern matches.
pub proof fn lemma_first_of_matching(patterns: Seq<Seq<char>>, path: Seq<char>, from: int)
    requires
        0 <= from,
        patterns.len() <= usize::MAX,
    ensures
        (matching_indices_from(patterns, path, from).len() > 0) == (first_matching(
            patterns,
            path,
            from,
        ) >= 0),
        matching_indices_from(patterns, path, from).len() > 0 ==> matching_indices_from(
            patterns,
            path,
            from,
        )[0] as int == first_matching(patterns, path, from),
    decreases patterns.len() - from,
{
    if from < patterns.len() {
        lemma_first_of_matching(patterns, path, from + 1);
        lemma_first_matching_bounds(patterns, path, from + 1);
        if glob_matches(patterns[from], path) {
            let rest = matching_indices_from(patterns, path, from + 1);
            assert((seq![from as usize] + rest)[0] == from as usize);
        }
    }
}

proof fn lemma_first_matching_bounds(patterns: Seq<Seq<char>>, path: Seq<char>, from: int)
    requires
        0 <= from,
    ensures
        first_matching(patterns, path, from) >= -1,
        first_matching(patterns, path, from) < patterns.len(),
    decreases patterns.len() - from,
{
    if from < patterns.len() {
        lemma_first_matching_bounds(patterns, path, from + 1);
    }
}

/// An ordered list of valid glob patterns, compiled into a `GlobSet`.
#[derive(Debug)]
pub struct GlobList {
    patterns: Vec<String>,
    set: globset::GlobSet,
}

/// The character sequences of a list of strings.
pub open spec fn strs(v: Seq<String>) -> Seq<Seq<char>> {
    v.map_values(|s: String| s@)
}

impl View for GlobList {
    type V = Seq<Seq<char>>;

    /// The patterns, in order.
    closed spec fn view(&self) -> Seq<Seq<char>> {
        strs(self.patterns@)
    }
}

/// Index of the first pattern that does not parse as a glob, or -1 when all do.
pub open spec fn first_invalid(patterns: Seq<Seq<char>>) -> int {
    if forall|i: int| 0 <= i < patterns.len() ==> glob_valid(#[trigger] patterns[i]) {
        -1
    } else {
        choose|i: int|
            0 <= i < patterns.len() && !glob_valid(patterns[i]) && forall|j: int|
                0 <= j < i ==> glob_valid(#[trigger] patterns[j])
    }
}

/// Why a glob list cannot be built from `patterns`, if it cannot: the first pattern that does
/// not parse, else `set_label` when the set of them cannot be built.
pub open spec fn glob_list_error(patterns: Seq<Seq<char>>, set_label: Seq<char>) -> Option<
    Seq<char>,
> {
    if first_invalid(patterns) >= 0 {
        Some(patterns[first_invalid(patterns)])
    } else if !glob_set_compiles(patterns) {
        Some(set_label)
    } else {
        None
    }
}

fn copy_string(s: &String) -> (r: String)
    ensures
        r@ == s@,
{
    s.clone()
}

impl GlobList {
    #[verifier::type_invariant]
    closed spec fn compiled(&self) -> bool {
        &&& set_patterns(self.set) == strs(self.patterns@)
        &&& forall|i: int| 0 <= i < self@.len() ==> glob_valid(#[trigger] self@[i])
    }

    /// Every pattern of the list parses as a glob (always so: lists are built from valid
    /// patterns only).
    pub open spec fn wf(&self) -> bool {
        forall|i: int| 0 <= i < self@.len() ==> glob_valid(#[trigger] self@[i])
    }

    /// An empty list.
    pub fn empty() -> (r: GlobList)
        ensures
            r@ == Seq::<Seq<char>>::empty(),
            r.wf(),
            glob_set_compiles(Seq::<Seq<char>>::empty()),
    {
        let patterns: Vec<String> = Vec::new();
        assert(strs(patterns@) =~= Seq::<Seq<char>>::empty());
        let r = GlobList { patterns, set: glob_set_empty() };
        assert(r@ =~= Seq::<Seq<char>>::empty());
        r
    }

    /// Compiles the patterns into a set: the first pattern that is not a valid glob is reported,
    /// or `set_label` when the set cannot be built.
    pub fn build(patterns: &Vec<String>, set_label: &str) -> (r: Result<GlobList, SlocGuardError>)
        ensures
            match r {
                Ok(list) => glob_list_error(strs(patterns@), set_label@) is None && list.wf()
                    && list@ == strs(patterns@),
                Err(e) => glob_list_error(strs(patterns@), set_label@) is Some && e.pattern_text()
                    == glob_list_error(strs(patterns@), set_label@),
            },
    {
        let ghost ps = strs(patterns@);
        let mut out: Vec<String> = Vec::new();
        let mut builder = glob_set_builder();
        let mut i: usize = 0;
        while i < patterns.len()
            invariant
                0 <= i <= patterns.len(),
                ps == strs(patterns@),
                strs(out@) == ps.take(i as int),
                builder_patterns(builder) == ps.take(i as int),
                forall|j: int| 0 <= j < i ==> glob_valid(#[trigger] ps[j]),
            decreases patterns.len() - i,
        {
            assert(ps[i as int] == patterns@[i as int]@);
            if !glob_parses(patterns[i].as_str()) {
                let ghost k = i as int;
                assert(first_invalid(ps) == k) by {
                    assert(0 <= k < ps.len() && !glob_valid(ps[k]));
                    let c = first_invalid(ps);
                    assert(c >= 0);
                    if c < k {
                        assert(glob_valid(ps[c]));
                    } else if c > k {
                        assert(glob_valid(ps[k]));
                    }
                }
                return Err(SlocGuardError::InvalidPattern { pattern: copy_string(&patterns[i]) });
            }
            glob_set_add(&mut builder, patterns[i].as_str());
            let ghost before = strs(out@);
            out.push(copy_string(&patterns[i]));
            assert(strs(out@) =~= before.push(ps[i as int]));
            assert(ps.take(i + 1) =~= ps.take(i as int).push(ps[i as int]));
            i = i + 1;
        }
        assert(ps.take(patterns.len() as int) =~= ps);
        match glob_set_build(&builder) {
            Some(set) => {
                let r = GlobList { patterns: out, set };
                assert(r@ == ps);
                Ok(r)
            },
            None => Err(SlocGuardError::InvalidPattern { pattern: String::from_str(set_label) }),
        }
    }

    /// A copy of the list.
    pub fn duplicate(&self) -> (r: GlobList)
        ensures
            r@ == self@,
            r.wf(),
    {
        proof {
            use_type_invariant(self);
        }
        let patterns = self.patterns.clone();
        assert(patterns@ =~= self.patterns@) by {
            assert forall|i: int| 0 <= i < patterns@.len() implies patterns@[i]
                == self.patterns@[i] by {
                assert(cloned::<String>(self.patterns[i], patterns[i]));
            }
        }
        assert(strs(patterns@) == strs(self.patterns@));
        let set = glob_set_clone(&self.set);
        assert(set_patterns(set) == strs(patterns@));
        assert(forall|i: int|
            0 <= i < strs(patterns@).len() ==> glob_valid(#[trigger] strs(patterns@)[i])) by {
            assert(strs(patterns@) == self@);
        }
        GlobList { patterns, set }
    }

    /// Whether every pattern of the list parses as a glob (always true).
    pub fn is_valid(&self) -> (r: bool)
        ensures
            r == self.wf(),
    {
        proof {
            use_type_invariant(self);
        }
        true
    }

    /// Number of patterns.
    pub fn len(&self) -> (r: usize)
        ensures
            r == self@.len(),
    {
        self.patterns.len()
    }

    /// Whether the list holds no pattern.
    pub fn is_empty(&self) -> (r: bool)
        ensures
            r == (self@.len() == 0),
    {
        self.patterns.len() == 0
    }

    /// Whether some pattern matches `path`.
    pub fn is_match(&self, path: &str) -> (r: bool)
        ensures
            r == any_glob_matches(self@, path@),
    {
        proof {
            use_type_invariant(self);
        }
        glob_set_is_match(&self.set, path)
    }

    /// Index of the first pattern that matches `path`.
    pub fn first_match(&self, path: &str) -> (r: Option<usize>)
        ensures
            match r {
                Some(i) => first_matching(self@, path@, 0) == i as int,
                None => first_matching(self@, path@, 0) == -1,
            },
    {
        let n = self.patterns.len();
        proof {
            use_type_invariant(self);
            assert(self@.len() == n);
            lemma_first_of_matching(self@, path@, 0);
            lemma_first_matching_bounds(self@, path@, 0);
        }
        let found = glob_set_matches(&self.set, path);
        if found.len() > 0 {
            Some(found[0])
        } else {
            None
        }
    }

    /// Indices of all patterns that match `path`, in increasing order.
    pub fn matches(&self, path: &str) -> (r: Vec<usize>)
        ensures
            r@ == matching_indices_from(self@, path@, 0),
    {
        proof {
            use_type_invariant(self);
        }
        glob_set_matches(&self.set, path)
    }
}

impl Clone for GlobList {
    fn clone(&self) -> (r: Self)
        ensures
            r@ == self@,
    {
        self.duplicate()
    }
}

} // verus!
