//! Stable path semantics for project-relative configuration and rule matching.
//!
//! [`ProjectPaths`] separates physical paths (used for filesystem access) from logical paths
//! (relative to the configuration root, used for rule matching, output and persistent
//! identity). All path arithmetic is lexical: `.` and `..` are resolved without touching the
//! filesystem, and Windows drive, root and UNC forms are understood on every host.
use vstd::prelude::*;

use crate::path_utils::{is_nonempty_segment, keep_segments};
use crate::text::{
    chars_of, chars_range, copy_chars, is_sep, join_slash, join_with_slash, split_chars, split_spec,
    string_from_chars, views,
};

verus! {

// ---------------------------------------------------------------------------------------------
// Normalization for matching
// ---------------------------------------------------------------------------------------------

/// Whether `s` begins with `./` or `.\`.
pub open spec fn has_dot_prefix(s: Seq<char>) -> bool {
    s.len() >= 2 && s[0] == '.' && (s[1] == '/' || s[1] == '\\')
}

/// `/` for `\`, every other character unchanged.
pub open spec fn forward_slash(c: char) -> char {
    if c == '\\' {
        '/'
    } else {
        c
    }
}

/// A logical path normalized for glob matching: one leading `./` (or `.\`) removed, `\`
/// turned into `/`, and a bare `.` (or nothing) turned into the empty path that stands for
/// the configuration root.
pub open spec fn normalized(s: Seq<char>) -> Seq<char> {
    let st = if has_dot_prefix(s) {
        s.skip(2)
    } else {
        s
    };
    if st.len() == 0 || st == seq!['.'] {
        Seq::empty()
    } else {
        st.map_values(|c: char| forward_slash(c))
    }
}

fn normalized_chars(v: &Vec<char>) -> (r: Vec<char>)
    ensures
        r@ == normalized(v@),
{
    let start: usize = if v.len() >= 2 && v[0] == '.' && (v[1] == '/' || v[1] == '\\') {
        2
    } else {
        0
    };
    let ghost st = if has_dot_prefix(v@) {
        v@.skip(2)
    } else {
        v@
    };
    assert(st =~= v@.subrange(start as int, v.len() as int));
    if v.len() - start == 0 || (v.len() - start == 1 && v[start] == '.') {
        if v.len() - start == 1 {
            assert(st =~= seq!['.']);
        }
        return Vec::new();
    }
    assert(st != seq!['.']) by {
        if st.len() == 1 {
            assert(st[0] == v@[start as int]);
        }
    }
    let mut r: Vec<char> = Vec::new();
    let mut i = start;
    while i < v.len()
        invariant
            start <= i <= v.len(),
            st == v@.subrange(start as int, v.len() as int),
            r@ == st.take(i - start).map_values(|c: char| forward_slash(c)),
        decreases v.len() - i,
    {
        let c = v[i];
        r.push(if c == '\\' {
            '/'
        } else {
            c
        });
        i = i + 1;
        assert(r@ =~= st.take(i - start).map_values(|c: char| forward_slash(c)));
    }
    assert(st.take(v.len() - start) =~= st);
    r
}

/// Normalize a logical path for glob matching: remove one leading `./` (or `.\`), convert
/// separators to `/`, and turn a bare `.` into the empty path (the configuration root).
pub fn normalize_for_matching(path: &str) -> (r: String)
    ensures
        r@ == normalized(path@),
{
    let v = chars_of(path);
    let n = normalized_chars(&v);
    string_from_chars(&n)
}

/// Normalize a configuration glob into the namespace of logical path candidates: one leading
/// `./` (or `.\`) removed and separators converted, parent components such as `../` kept.
pub fn normalize_pattern_for_matching(pattern: &str) -> (r: String)
    ensures
        r@ == normalized(pattern@),
{
    normalize_for_matching(pattern)
}

/// `s` without one trailing `/`, or else without one trailing `\`.
pub open spec fn strip_one_trailing_sep(s: Seq<char>) -> Seq<char> {
    if s.len() > 0 && (s.last() == '/' || s.last() == '\\') {
        s.drop_last()
    } else {
        s
    }
}

/// Whether `s` holds the character `c`.
pub open spec fn has_char(s: Seq<char>, c: char) -> bool {
    exists|i: int| 0 <= i < s.len() && s[i] == c
}

/// Whether a pattern explicitly addresses a path rather than an unqualified basename: after
/// one trailing separator is removed, it starts with `./` or `.\`, or holds a separator.
pub open spec fn path_qualified(pattern: Seq<char>) -> bool {
    let p = strip_one_trailing_sep(pattern);
    has_dot_prefix(p) || has_char(p, '/') || has_char(p, '\\')
}

/// Whether a pattern explicitly addresses a path rather than an unqualified basename.
pub fn pattern_is_path_qualified(pattern: &str) -> (r: bool)
    ensures
        r == path_qualified(pattern@),
{
    let v = chars_of(pattern);
    let n: usize = if v.len() > 0 && (v[v.len() - 1] == '/' || v[v.len() - 1] == '\\') {
        v.len() - 1
    } else {
        v.len()
    };
    let ghost p = strip_one_trailing_sep(pattern@);
    assert(p =~= v@.take(n as int));
    if n >= 2 && v[0] == '.' && (v[1] == '/' || v[1] == '\\') {
        assert(p[0] == v[0] && p[1] == v[1]);
        return true;
    }
    let mut i: usize = 0;
    while i < n
        invariant
            0 <= i <= n <= v.len(),
            p == v@.take(n as int),
            v@ == pattern@,
            p == strip_one_trailing_sep(pattern@),
            forall|j: int| 0 <= j < i ==> p[j] != '/' && p[j] != '\\',
        decreases n - i,
    {
        if v[i] == '/' || v[i] == '\\' {
            assert(p[i as int] == v[i as int]);
            assert(has_char(p, v[i as int]));
            return true;
        }
        i = i + 1;
    }
    assert(!has_dot_prefix(p)) by {
        if p.len() >= 2 {
            assert(p[0] == v[0] && p[1] == v[1]);
        }
    }
    false
}

/// A path with one leading `./` (or `.\`) removed; a bare `.` becomes empty; anything else is
/// unchanged. Separators inside the path are kept as written.
pub open spec fn dot_prefix_stripped(s: Seq<char>) -> Seq<char> {
    if has_dot_prefix(s) {
        s.skip(2)
    } else if s == seq!['.'] {
        Seq::empty()
    } else {
        s
    }
}

/// Strip a leading `.` component (`./src/foo` or `.\src\foo` becomes `src/foo`; `.` becomes
/// empty) so that scope patterns match regardless of how the scan root was written.
pub fn strip_dot_prefix(path: &str) -> (r: String)
    ensures
        r@ == dot_prefix_stripped(path@),
{
    let v = chars_of(path);
    if v.len() >= 2 && v[0] == '.' && (v[1] == '/' || v[1] == '\\') {
        return crate::text::string_from_range(&v, 2, v.len());
    }
    if v.len() == 1 && v[0] == '.' {
        assert(v@ =~= seq!['.']);
        return String::new();
    }
    assert(v@ != seq!['.']) by {
        if v@.len() == 1 {
            assert(v@[0] == v[0]);
        }
    }
    string_from_chars(&v)
}

// ---------------------------------------------------------------------------------------------
// Lexical paths
// ---------------------------------------------------------------------------------------------

/// What a lexical path is anchored at.
pub enum AnchorView {
    Relative,
    UnixRoot,
    WindowsRoot,
    Drive(Seq<char>),
    Unc(Seq<char>, Seq<char>),
}

/// A lexical path: its anchor, whether it is rooted at the anchor, and its components.
pub struct LexView {
    pub anchor: AnchorView,
    pub rooted: bool,
    pub comps: Seq<Seq<char>>,
}

/// Whether `c` is an ASCII letter.
pub open spec fn is_ascii_alpha(c: char) -> bool {
    ('a' <= c <= 'z') || ('A' <= c <= 'Z')
}

/// ASCII lowercase of a character; other characters unchanged.
pub open spec fn ascii_lower(c: char) -> char {
    if 'A' <= c <= 'Z' {
        ((c as u32) + 32) as char
    } else {
        c
    }
}

/// Equality up to ASCII letter case (`str::eq_ignore_ascii_case`).
pub open spec fn eq_ignore_ascii_case(a: Seq<char>, b: Seq<char>) -> bool {
    &&& a.len() == b.len()
    &&& forall|i: int| 0 <= i < a.len() ==> ascii_lower(#[trigger] a[i]) == ascii_lower(b[i])
}

/// Component equality: case-insensitive in ASCII under Windows semantics, exact otherwise.
pub open spec fn component_eq_spec(a: Seq<char>, b: Seq<char>, windows: bool) -> bool {
    if windows {
        eq_ignore_ascii_case(a, b)
    } else {
        a == b
    }
}

/// One step of lexical normalization while parsing: `..` removes the previous component when
/// there is one that is not itself `..`, is kept when the path is not rooted, and is dropped
/// otherwise; empty and `.` parts are dropped; other parts are appended.
pub open spec fn parse_step(comps: Seq<Seq<char>>, rooted: bool, part: Seq<char>) -> Seq<
    Seq<char>,
> {
    if part == seq!['.', '.'] && comps.len() > 0 && comps.last() != seq!['.', '.'] {
        comps.drop_last()
    } else if part == seq!['.', '.'] && !rooted {
        comps.push(part)
    } else if part.len() == 0 || part == seq!['.'] || part == seq!['.', '.'] {
        comps
    } else {
        comps.push(part)
    }
}

/// The components that the parts give after lexical normalization, in order.
pub open spec fn fold_parts(rooted: bool, parts: Seq<Seq<char>>) -> Seq<Seq<char>>
    decreases parts.len(),
{
    if parts.len() == 0 {
        Seq::empty()
    } else {
        parse_step(fold_parts(rooted, parts.drop_last()), rooted, parts.last())
    }
}

/// The parts of `s` between `/` separators.
pub open spec fn slash_parts(s: Seq<char>) -> Seq<Seq<char>> {
    split_spec(s, is_sep(false))
}

/// The non-empty parts that follow the `//` of a UNC path.
pub open spec fn unc_parts(v: Seq<char>) -> Seq<Seq<char>> {
    slash_parts(v.skip(2)).filter(|x: Seq<char>| is_nonempty_segment(x))
}

/// Whether the raw text starts with a single `\` (a root-relative Windows path).
pub open spec fn windows_rooted(raw: Seq<char>) -> bool {
    raw.len() >= 1 && raw[0] == '\\' && !(raw.len() >= 2 && raw[1] == '\\')
}

/// The lexical reading of a path: after normalization, `//server/share/...` is a UNC path,
/// `X:` a drive (rooted when `/` follows), a leading `/` a root (Windows-style when the raw
/// text began with a single `\`), anything else relative; the remaining parts are normalized
/// by `fold_parts`.
pub open spec fn parse_spec(raw: Seq<char>) -> LexView {
    let v = normalized(raw);
    if v.len() >= 2 && v[0] == '/' && v[1] == '/' && unc_parts(v).len() >= 2 {
        let parts = unc_parts(v);
        LexView {
            anchor: AnchorView::Unc(parts[0], parts[1]),
            rooted: true,
            comps: fold_parts(true, parts.skip(2)),
        }
    } else if v.len() >= 2 && is_ascii_alpha(v[0]) && v[1] == ':' {
        let rooted = v.len() >= 3 && v[2] == '/';
        LexView {
            anchor: AnchorView::Drive(v.take(2)),
            rooted,
            comps: fold_parts(
                rooted,
                slash_parts(
                    v.skip(
                        if rooted {
                            3
                        } else {
                            2
                        },
                    ),
                ),
            ),
        }
    } else if v.len() >= 1 && v[0] == '/' {
        LexView {
            anchor: if windows_rooted(raw) {
                AnchorView::WindowsRoot
            } else {
                AnchorView::UnixRoot
            },
            rooted: true,
            comps: fold_parts(true, slash_parts(v.skip(1))),
        }
    } else {
        LexView { anchor: AnchorView::Relative, rooted: false, comps: fold_parts(false, slash_parts(v)) }
    }
}

/// One step of resolving a relative component onto a base: `..` removes the last component
/// when there is one that is not `..`, is kept when the base is not rooted, and is dropped
/// otherwise; any other component is appended.
pub open spec fn resolve_step(comps: Seq<Seq<char>>, rooted: bool, c: Seq<char>) -> Seq<Seq<char>> {
    if c == seq!['.', '.'] {
        if comps.len() > 0 && comps.last() != seq!['.', '.'] {
            comps.drop_last()
        } else if !rooted {
            comps.push(c)
        } else {
            comps
        }
    } else {
        comps.push(c)
    }
}

/// The components of `base` after resolving `rel` onto it, step by step.
pub open spec fn resolve_comps(base: Seq<Seq<char>>, rooted: bool, rel: Seq<Seq<char>>) -> Seq<
    Seq<char>,
>
    decreases rel.len(),
{
    if rel.len() == 0 {
        base
    } else {
        resolve_step(resolve_comps(base, rooted, rel.drop_last()), rooted, rel.last())
    }
}

/// `p` resolved against `base`: a relative `p` (or a drive-relative `p` on the base's drive) is
/// appended to the base; a root-relative Windows `p` takes the base's drive; any other `p` is
/// already anchored and is kept as it is.
pub open spec fn resolve_spec(base: LexView, p: LexView) -> LexView {
    match (base.anchor, p.anchor) {
        (AnchorView::Drive(d), AnchorView::WindowsRoot) if p.rooted => LexView {
            anchor: AnchorView::Drive(d),
            rooted: true,
            comps: p.comps,
        },
        (AnchorView::Drive(b), AnchorView::Drive(r)) if !p.rooted && eq_ignore_ascii_case(b, r) => {
            LexView {
                anchor: base.anchor,
                rooted: base.rooted,
                comps: resolve_comps(base.comps, base.rooted, p.comps),
            }
        },
        (_, AnchorView::Relative) if !p.rooted => LexView {
            anchor: base.anchor,
            rooted: base.rooted,
            comps: resolve_comps(base.comps, base.rooted, p.comps),
        },
        _ => p,
    }
}

/// Whether two lexical paths share an anchor, so that one can be expressed relative to the
/// other (drive letters and UNC names compare without regard to ASCII case).
pub open spec fn same_anchor_spec(a: LexView, b: LexView) -> bool {
    match (a.anchor, b.anchor) {
        (AnchorView::Relative, AnchorView::Relative) => true,
        (AnchorView::UnixRoot, AnchorView::UnixRoot) => true,
        (AnchorView::WindowsRoot, AnchorView::WindowsRoot) => true,
        (AnchorView::Drive(l), AnchorView::Drive(r)) => a.rooted == b.rooted
            && eq_ignore_ascii_case(l, r),
        (AnchorView::Unc(ls, lh), AnchorView::Unc(rs, rh)) => eq_ignore_ascii_case(ls, rs)
            && eq_ignore_ascii_case(lh, rh),
        _ => false,
    }
}

/// Whether components compare under Windows semantics (drive and UNC anchors).
pub open spec fn windows_semantics(a: AnchorView) -> bool {
    a is Drive || a is Unc
}

/// Length of the longest common prefix of two component lists.
pub open spec fn common_prefix_len(a: Seq<Seq<char>>, b: Seq<Seq<char>>, windows: bool) -> nat
    decreases a.len(),
{
    if a.len() == 0 || b.len() == 0 || !component_eq_spec(a[0], b[0], windows) {
        0
    } else {
        1 + common_prefix_len(a.drop_first(), b.drop_first(), windows)
    }
}

/// `n` copies of `..`.
pub open spec fn parents(n: nat) -> Seq<Seq<char>> {
    Seq::new(n, |i: int| seq!['.', '.'])
}

/// `p` relative to `root`: `..` for each root component past their common prefix, then the
/// rest of `p`; `p` unchanged when the two do not share an anchor.
pub open spec fn relative_to_spec(p: LexView, root: LexView) -> LexView {
    if !same_anchor_spec(p, root) {
        p
    } else {
        let common = common_prefix_len(p.comps, root.comps, windows_semantics(p.anchor));
        LexView {
            anchor: AnchorView::Relative,
            rooted: false,
            comps: parents((root.comps.len() - common) as nat) + p.comps.skip(common as int),
        }
    }
}

/// The text of a lexical path: components joined by `/` behind the anchor's prefix.
pub open spec fn render_spec(p: LexView) -> Seq<char> {
    let body = join_slash(p.comps);
    match p.anchor {
        AnchorView::Relative => body,
        AnchorView::UnixRoot | AnchorView::WindowsRoot => if body.len() == 0 {
            seq!['/']
        } else {
            seq!['/'] + body
        },
        AnchorView::Drive(d) => if p.rooted && body.len() == 0 {
            d + seq!['/']
        } else if p.rooted {
            d + seq!['/'] + body
        } else {
            d + body
        },
        AnchorView::Unc(server, share) => if body.len() == 0 {
            seq!['/', '/'] + server + seq!['/'] + share
        } else {
            seq!['/', '/'] + server + seq!['/'] + share + seq!['/'] + body
        },
    }
}

/// Resolve `path` against `cwd` without touching the filesystem: only lexical `.` and `..`
/// are removed, so symlinks supplied by the caller keep their location.
pub open spec fn lexical_absolute_spec(path: Seq<char>, cwd: Seq<char>) -> Seq<char> {
    render_spec(resolve_spec(parse_spec(cwd), parse_spec(path)))
}

/// The anchor of a lexical path.
enum Anchor {
    Relative,
    UnixRoot,
    WindowsRoot,
    Drive(Vec<char>),
    Unc { server: Vec<char>, share: Vec<char> },
}

impl Anchor {
    spec fn view(&self) -> AnchorView {
        match self {
            Anchor::Relative => AnchorView::Relative,
            Anchor::UnixRoot => AnchorView::UnixRoot,
            Anchor::WindowsRoot => AnchorView::WindowsRoot,
            Anchor::Drive(d) => AnchorView::Drive(d@),
            Anchor::Unc { server, share } => AnchorView::Unc(server@, share@),
        }
    }

    fn copy(&self) -> (r: Anchor)
        ensures
            r.view() == self.view(),
    {
        match self {
            Anchor::Relative => Anchor::Relative,
            Anchor::UnixRoot => Anchor::UnixRoot,
            Anchor::WindowsRoot => Anchor::WindowsRoot,
            Anchor::Drive(d) => Anchor::Drive(copy_chars(d)),
            Anchor::Unc { server, share } => Anchor::Unc {
                server: copy_chars(server),
                share: copy_chars(share),
            },
        }
    }
}

/// A lexically normalized path.
struct LexicalPath {
    anchor: Anchor,
    rooted: bool,
    components: Vec<Vec<char>>,
}

fn clone_components(c: &Vec<Vec<char>>) -> (r: Vec<Vec<char>>)
    ensures
        views(r@) == views(c@),
{
    let mut r: Vec<Vec<char>> = Vec::new();
    let mut i: usize = 0;
    while i < c.len()
        invariant
            0 <= i <= c.len(),
            views(r@) == views(c@).take(i as int),
        decreases c.len() - i,
    {
        let ghost before = views(r@);
        r.push(copy_chars(&c[i]));
        assert(views(r@) =~= before.push(c@[i as int]@));
        assert(views(r@) =~= views(c@).take(i + 1));
        i = i + 1;
    }
    assert(views(c@).take(c.len() as int) =~= views(c@));
    r
}

fn is_dot_dot(x: &Vec<char>) -> (r: bool)
    ensures
        r == (x@ == seq!['.', '.']),
{
    if x.len() == 2 && x[0] == '.' && x[1] == '.' {
        assert(x@ =~= seq!['.', '.']);
        true
    } else {
        false
    }
}

fn dot_dot() -> (r: Vec<char>)
    ensures
        r@ == seq!['.', '.'],
{
    let mut r = Vec::new();
    r.push('.');
    r.push('.');
    assert(r@ =~= seq!['.', '.']);
    r
}

fn ascii_lower_exec(c: char) -> (r: char)
    ensures
        r == ascii_lower(c),
{
    if 'A' <= c && c <= 'Z' {
        ((c as u8) + 32) as char
    } else {
        c
    }
}

/// Equality up to ASCII letter case.
fn eq_ignore_ascii_case_exec(a: &Vec<char>, b: &Vec<char>) -> (r: bool)
    ensures
        r == eq_ignore_ascii_case(a@, b@),
{
    if a.len() != b.len() {
        return false;
    }
    let mut i: usize = 0;
    while i < a.len()
        invariant
            a.len() == b.len(),
            0 <= i <= a.len(),
            forall|j: int| 0 <= j < i ==> ascii_lower(#[trigger] a@[j]) == ascii_lower(b@[j]),
        decreases a.len() - i,
    {
        if ascii_lower_exec(a[i]) != ascii_lower_exec(b[i]) {
            return false;
        }
        i = i + 1;
    }
    true
}

/// Component equality: ASCII case-insensitive under Windows semantics, exact otherwise.
fn component_eq(left: &Vec<char>, right: &Vec<char>, windows_semantics: bool) -> (r: bool)
    ensures
        r == component_eq_spec(left@, right@, windows_semantics),
{
    if windows_semantics {
        eq_ignore_ascii_case_exec(left, right)
    } else {
        crate::text::chars_eq(left, right)
    }
}

/// Lexical normalization of parts.
fn from_parts(rooted: bool, parts: &Vec<Vec<char>>) -> (r: Vec<Vec<char>>)
    ensures
        views(r@) == fold_parts(rooted, views(parts@)),
{
    let mut comps: Vec<Vec<char>> = Vec::new();
    let mut i: usize = 0;
    while i < parts.len()
        invariant
            0 <= i <= parts.len(),
            views(comps@) == fold_parts(rooted, views(parts@).take(i as int)),
        decreases parts.len() - i,
    {
        let part = &parts[i];
        let ghost before = views(comps@);
        assert(views(parts@).take(i + 1).drop_last() =~= views(parts@).take(i as int));
        assert(views(parts@).take(i + 1).last() == part@);
        let is_parent = is_dot_dot(part);
        let n = comps.len();
        if is_parent && n > 0 && !is_dot_dot(&comps[n - 1]) {
            assert(before.last() == comps@[n - 1]@);
            comps.pop();
            assert(views(comps@) =~= before.drop_last());
        } else if is_parent && !rooted {
            comps.push(copy_chars(part));
            assert(views(comps@) =~= before.push(part@));
        } else if part.len() == 0 || (part.len() == 1 && part[0] == '.') || is_parent {
            assert(part.len() == 1 && part[0] == '.' ==> part@ =~= seq!['.']);
        } else {
            assert(part@ != seq!['.']) by {
                if part@.len() == 1 {
                    assert(part@[0] == part[0]);
                }
            }
            if n > 0 {
                assert(before.last() == comps@[n - 1]@);
            }
            comps.push(copy_chars(part));
            assert(views(comps@) =~= before.push(part@));
        }
        i = i + 1;
    }
    assert(views(parts@).take(parts.len() as int) =~= views(parts@));
    comps
}

impl LexicalPath {
    spec fn view(&self) -> LexView {
        LexView { anchor: self.anchor.view(), rooted: self.rooted, comps: views(self.components@) }
    }

    fn copy(&self) -> (r: LexicalPath)
        ensures
            r.view() == self.view(),
    {
        LexicalPath {
            anchor: self.anchor.copy(),
            rooted: self.rooted,
            components: clone_components(&self.components),
        }
    }

    /// The lexical reading of a path.
    fn parse(raw: &Vec<char>) -> (r: LexicalPath)
        ensures
            r.view() == parse_spec(raw@),
    {
        let v = normalized_chars(raw);
        if v.len() >= 2 && v[0] == '/' && v[1] == '/' {
            let rest = chars_range(&v, 2, v.len());
            assert(rest@ =~= v@.skip(2));
            let parts = keep_segments(split_chars(&rest, false), false);
            if parts.len() >= 2 {
                let server = copy_chars(&parts[0]);
                let share = copy_chars(&parts[1]);
                let remaining = Self::tail(&parts, 2);
                let comps = from_parts(true, &remaining);
                return LexicalPath {
                    anchor: Anchor::Unc { server, share },
                    rooted: true,
                    components: comps,
                };
            }
        }
        if v.len() >= 2 && (('a' <= v[0] && v[0] <= 'z') || ('A' <= v[0] && v[0] <= 'Z')) && v[1]
            == ':' {
            let rooted = v.len() >= 3 && v[2] == '/';
            let drive = chars_range(&v, 0, 2);
            assert(drive@ =~= v@.take(2));
            let skip: usize = if rooted {
                3
            } else {
                2
            };
            let rest = chars_range(&v, skip, v.len());
            assert(rest@ =~= v@.skip(skip as int));
            let comps = from_parts(rooted, &split_chars(&rest, false));
            return LexicalPath { anchor: Anchor::Drive(drive), rooted, components: comps };
        }
        if v.len() >= 1 && v[0] == '/' {
            let win = raw.len() >= 1 && raw[0] == '\\' && !(raw.len() >= 2 && raw[1] == '\\');
            let rest = chars_range(&v, 1, v.len());
            assert(rest@ =~= v@.skip(1));
            let comps = from_parts(true, &split_chars(&rest, false));
            let anchor = if win {
                Anchor::WindowsRoot
            } else {
                Anchor::UnixRoot
            };
            return LexicalPath { anchor, rooted: true, components: comps };
        }
        let comps = from_parts(false, &split_chars(&v, false));
        LexicalPath { anchor: Anchor::Relative, rooted: false, components: comps }
    }

    fn tail(parts: &Vec<Vec<char>>, start: usize) -> (r: Vec<Vec<char>>)
        requires
            start <= parts.len(),
        ensures
            views(r@) == views(parts@).skip(start as int),
    {
        let mut r: Vec<Vec<char>> = Vec::new();
        let mut i = start;
        while i < parts.len()
            invariant
                start <= i <= parts.len(),
                views(r@) == views(parts@).subrange(start as int, i as int),
            decreases parts.len() - i,
        {
            let ghost before = views(r@);
            r.push(copy_chars(&parts[i]));
            assert(views(r@) =~= before.push(parts@[i as int]@));
            i = i + 1;
            assert(views(r@) =~= views(parts@).subrange(start as int, i as int));
        }
        assert(views(parts@).subrange(start as int, parts.len() as int) =~= views(parts@).skip(
            start as int,
        ));
        r
    }

    /// Appends the relative components onto this path, resolving `..`.
    fn resolve_onto(&self, rel: &Vec<Vec<char>>) -> (r: LexicalPath)
        ensures
            r.view() == (LexView {
                anchor: self.view().anchor,
                rooted: self.rooted,
                comps: resolve_comps(self.view().comps, self.rooted, views(rel@)),
            }),
    {
        let mut resolved = self.copy();
        let mut i: usize = 0;
        while i < rel.len()
            invariant
                0 <= i <= rel.len(),
                resolved.view().anchor == self.view().anchor,
                resolved.rooted == self.rooted,
                resolved.view().comps == resolve_comps(
                    self.view().comps,
                    self.rooted,
                    views(rel@).take(i as int),
                ),
            decreases rel.len() - i,
        {
            let c = &rel[i];
            let ghost before = resolved.view().comps;
            assert(views(rel@).take(i + 1).drop_last() =~= views(rel@).take(i as int));
            assert(views(rel@).take(i + 1).last() == c@);
            let n = resolved.components.len();
            if is_dot_dot(c) {
                if n > 0 && !is_dot_dot(&resolved.components[n - 1]) {
                    assert(before.last() == resolved.components@[n - 1]@);
                    resolved.components.pop();
                    assert(views(resolved.components@) =~= before.drop_last());
                } else if !resolved.rooted {
                    if n > 0 {
                        assert(before.last() == resolved.components@[n - 1]@);
                    }
                    resolved.components.push(dot_dot());
                    assert(views(resolved.components@) =~= before.push(c@));
                } else {
                    if n > 0 {
                        assert(before.last() == resolved.components@[n - 1]@);
                    }
                }
            } else {
                resolved.components.push(copy_chars(c));
                assert(views(resolved.components@) =~= before.push(c@));
            }
            i = i + 1;
        }
        assert(views(rel@).take(rel.len() as int) =~= views(rel@));
        resolved
    }

    /// `path` resolved against this path.
    fn resolve(&self, path: &LexicalPath) -> (r: LexicalPath)
        ensures
            r.view() == resolve_spec(self.view(), path.view()),
    {
        match (&self.anchor, &path.anchor) {
            (Anchor::Drive(drive), Anchor::WindowsRoot) => {
                if path.rooted {
                    return LexicalPath {
                        anchor: Anchor::Drive(copy_chars(drive)),
                        rooted: true,
                        components: clone_components(&path.components),
                    };
                }
                path.copy()
            },
            (Anchor::Drive(base), Anchor::Drive(relative)) => {
                if !path.rooted && eq_ignore_ascii_case_exec(base, relative) {
                    self.resolve_onto(&path.components)
                } else {
                    path.copy()
                }
            },
            (_, Anchor::Relative) => {
                if !path.rooted {
                    self.resolve_onto(&path.components)
                } else {
                    path.copy()
                }
            },
            _ => path.copy(),
        }
    }

    /// Whether this path and `other` share an anchor.
    fn same_anchor(&self, other: &LexicalPath) -> (r: bool)
        ensures
            r == same_anchor_spec(self.view(), other.view()),
    {
        match (&self.anchor, &other.anchor) {
            (Anchor::Relative, Anchor::Relative) => true,
            (Anchor::UnixRoot, Anchor::UnixRoot) => true,
            (Anchor::WindowsRoot, Anchor::WindowsRoot) => true,
            (Anchor::Drive(left), Anchor::Drive(right)) => self.rooted == other.rooted
                && eq_ignore_ascii_case_exec(left, right),
            (
                Anchor::Unc { server: left_server, share: left_share },
                Anchor::Unc { server: right_server, share: right_share },
            ) => eq_ignore_ascii_case_exec(left_server, right_server) && eq_ignore_ascii_case_exec(
                left_share,
                right_share,
            ),
            _ => false,
        }
    }

    /// This path expressed relative to `root`.
    fn relative_to(&self, root: &LexicalPath) -> (r: LexicalPath)
        ensures
            r.view() == relative_to_spec(self.view(), root.view()),
    {
        if !self.same_anchor(root) {
            return self.copy();
        }
        let windows = match &self.anchor {
            Anchor::Drive(_) => true,
            Anchor::Unc { .. } => true,
            _ => false,
        };
        let ghost a = self.view().comps;
        let ghost b = root.view().comps;
        let mut common: usize = 0;
        assert(a.skip(0) =~= a);
        assert(b.skip(0) =~= b);
        while common < self.components.len() && common < root.components.len() && component_eq(
            &self.components[common],
            &root.components[common],
            windows,
        )
            invariant
                a == views(self.components@),
                b == views(root.components@),
                0 <= common <= self.components.len(),
                common <= root.components.len(),
                common_prefix_len(a, b, windows) == common + common_prefix_len(
                    a.skip(common as int),
                    b.skip(common as int),
                    windows,
                ),
            decreases self.components.len() - common,
        {
            assert(a.skip(common as int)[0] == self.components@[common as int]@);
            assert(b.skip(common as int)[0] == root.components@[common as int]@);
            assert(a.skip(common as int).drop_first() =~= a.skip(common + 1));
            assert(b.skip(common as int).drop_first() =~= b.skip(common + 1));
            common = common + 1;
        }
        assert(common_prefix_len(a, b, windows) == common) by {
            if common < a.len() && common < b.len() {
                assert(a.skip(common as int)[0] == self.components@[common as int]@);
                assert(b.skip(common as int)[0] == root.components@[common as int]@);
            }
        }
        let up = root.components.len() - common;
        let mut components: Vec<Vec<char>> = Vec::new();
        let mut k: usize = 0;
        while k < up
            invariant
                0 <= k <= up,
                views(components@) == parents(k as nat),
            decreases up - k,
        {
            let ghost before = views(components@);
            components.push(dot_dot());
            assert(views(components@) =~= before.push(seq!['.', '.']));
            k = k + 1;
            assert(views(components@) =~= parents(k as nat));
        }
        let ghost head = views(components@);
        let mut j = common;
        while j < self.components.len()
            invariant
                common <= j <= self.components.len(),
                a == views(self.components@),
                views(components@) == head + a.subrange(common as int, j as int),
            decreases self.components.len() - j,
        {
            let ghost before = views(components@);
            components.push(copy_chars(&self.components[j]));
            assert(views(components@) =~= before.push(a[j as int]));
            j = j + 1;
            assert(views(components@) =~= head + a.subrange(common as int, j as int));
        }
        assert(a.subrange(common as int, a.len() as int) =~= a.skip(common as int));
        LexicalPath { anchor: Anchor::Relative, rooted: false, components }
    }

    /// The text of this path.
    fn render(&self) -> (r: Vec<char>)
        ensures
            r@ == render_spec(self.view()),
    {
        let body = join_with_slash(&self.components);
        let mut r: Vec<char> = Vec::new();
        match &self.anchor {
            Anchor::Relative => {
                return body;
            },
            Anchor::UnixRoot | Anchor::WindowsRoot => {
                r.push('/');
            },
            Anchor::Drive(d) => {
                r = copy_chars(d);
                if self.rooted {
                    r.push('/');
                }
            },
            Anchor::Unc { server, share } => {
                r.push('/');
                r.push('/');
                Self::append(&mut r, server);
                r.push('/');
                Self::append(&mut r, share);
                if body.len() > 0 {
                    r.push('/');
                }
            },
        }
        if let Anchor::Drive(_) = &self.anchor {
        } else if let Anchor::Unc { .. } = &self.anchor {
        } else if body.len() == 0 {
            assert(r@ =~= seq!['/']);
            return r;
        }
        let ghost before = r@;
        Self::append(&mut r, &body);
        assert(r@ =~= render_spec(self.view()));
        r
    }

    fn append(r: &mut Vec<char>, s: &Vec<char>)
        ensures
            final(r)@ == old(r)@ + s@,
    {
        let mut i: usize = 0;
        while i < s.len()
            invariant
                0 <= i <= s.len(),
                r@ == old(r)@ + s@.take(i as int),
            decreases s.len() - i,
        {
            r.push(s[i]);
            i = i + 1;
            assert(r@ =~= old(r)@ + s@.take(i as int));
        }
        assert(s@.take(s.len() as int) =~= s@);
    }
}

/// Resolve `path` against `cwd` without touching the filesystem; only lexical `.`/`..`
/// components are removed, so the location of a symlink supplied by the caller is kept.
pub fn lexical_absolute(path: &str, cwd: &str) -> (r: String)
    ensures
        r@ == lexical_absolute_spec(path@, cwd@),
{
    let base = LexicalPath::parse(&chars_of(cwd));
    let p = LexicalPath::parse(&chars_of(path));
    let resolved = base.resolve(&p);
    string_from_chars(&resolved.render())
}

/// The logical path of `path` for a context rooted at `config_root` and invoked from
/// `invocation_cwd`: the path resolved against the invocation directory, made relative to the
/// root, with the root itself written `.`.
pub open spec fn logical_spec(config_root: Seq<char>, invocation_cwd: Seq<char>, path: Seq<char>) -> Seq<
    char,
> {
    let physical = resolve_spec(parse_spec(invocation_cwd), parse_spec(path));
    let logical = render_spec(relative_to_spec(physical, parse_spec(config_root)));
    if logical.len() == 0 {
        seq!['.']
    } else {
        logical
    }
}

/// The physical path of a logical `path` for a context rooted at `config_root`: the path
/// resolved against the root (absolute inputs only normalized).
pub open spec fn physical_spec(config_root: Seq<char>, path: Seq<char>) -> Seq<char> {
    render_spec(resolve_spec(parse_spec(config_root), parse_spec(path)))
}

/// The view of an optional string.
pub open spec fn opt_chars(s: Option<String>) -> Option<Seq<char>> {
    match s {
        Some(x) => Some(x@),
        None => None,
    }
}

/// Converts between invocation-relative physical paths and configuration-root-relative logical
/// paths. An unrooted context is the identity mapping.
#[derive(Debug, Clone)]
pub struct ProjectPaths {
    config_root: Option<String>,
    invocation_cwd: Option<String>,
}

/// A path context as plain values: the configuration root and the invocation directory, both
/// present exactly when the context is rooted.
pub struct PathsView {
    pub root: Option<Seq<char>>,
    pub cwd: Option<Seq<char>>,
}

impl PathsView {
    /// The logical path of `path` in this context.
    pub open spec fn logical_of(self, path: Seq<char>) -> Seq<char> {
        match (self.root, self.cwd) {
            (Some(root), Some(cwd)) => logical_spec(root, cwd, path),
            _ => path,
        }
    }

    /// The physical path of `path` in this context.
    pub open spec fn physical_of(self, path: Seq<char>) -> Seq<char> {
        match self.root {
            Some(root) => physical_spec(root, path),
            None => path,
        }
    }
}

impl View for ProjectPaths {
    type V = PathsView;

    closed spec fn view(&self) -> PathsView {
        PathsView { root: opt_chars(self.config_root), cwd: opt_chars(self.invocation_cwd) }
    }
}

impl ProjectPaths {
    /// The configuration root, if the context is rooted.
    pub open spec fn root_spec(&self) -> Option<Seq<char>> {
        self@.root
    }

    /// The invocation directory, if the context is rooted.
    pub open spec fn cwd_spec(&self) -> Option<Seq<char>> {
        self@.cwd
    }

    /// The logical path of `path` in this context.
    pub open spec fn logical_of(&self, path: Seq<char>) -> Seq<char> {
        self@.logical_of(path)
    }

    /// The physical path of `path` in this context.
    pub open spec fn physical_of(&self, path: Seq<char>) -> Seq<char> {
        self@.physical_of(path)
    }

    /// A rooted context. The invocation directory is resolved against `process_cwd` (the
    /// working directory of the process), and the configuration root against the result; both
    /// are kept in lexically normalized form.
    pub fn rooted_with_cwd(config_root: &str, invocation_cwd: &str, process_cwd: &str) -> (r: Self)
        ensures
            r.cwd_spec() == Some(lexical_absolute_spec(invocation_cwd@, process_cwd@)),
            r.root_spec() == Some(
                render_spec(
                    resolve_spec(
                        resolve_spec(parse_spec(process_cwd@), parse_spec(invocation_cwd@)),
                        parse_spec(config_root@),
                    ),
                ),
            ),
    {
        let process = LexicalPath::parse(&chars_of(process_cwd));
        let invocation = process.resolve(&LexicalPath::parse(&chars_of(invocation_cwd)));
        let root = invocation.resolve(&LexicalPath::parse(&chars_of(config_root)));
        ProjectPaths {
            config_root: Some(string_from_chars(&root.render())),
            invocation_cwd: Some(string_from_chars(&invocation.render())),
        }
    }

    /// A copy of the context.
    pub fn duplicate(&self) -> (r: Self)
        ensures
            r == *self,
    {
        ProjectPaths {
            config_root: self.config_root.clone(),
            invocation_cwd: self.invocation_cwd.clone(),
        }
    }

    /// The identity context, for callers without a stable configuration root.
    pub fn unrooted() -> (r: Self)
        ensures
            r.root_spec() is None,
            r.cwd_spec() is None,
    {
        ProjectPaths { config_root: None, invocation_cwd: None }
    }

    /// The configuration root, if this context is rooted.
    pub fn config_root(&self) -> (r: Option<&str>)
        ensures
            match r {
                Some(s) => self.root_spec() == Some(s@),
                None => self.root_spec() is None,
            },
    {
        match &self.config_root {
            Some(s) => Some(s.as_str()),
            None => None,
        }
    }

    /// The directory that relative physical paths are interpreted from, if rooted.
    pub fn invocation_cwd(&self) -> (r: Option<&str>)
        ensures
            match r {
                Some(s) => self.cwd_spec() == Some(s@),
                None => self.cwd_spec() is None,
            },
    {
        match &self.invocation_cwd {
            Some(s) => Some(s.as_str()),
            None => None,
        }
    }

    /// Whether this context has a configuration root.
    pub fn is_rooted(&self) -> (r: bool)
        ensures
            r == (self.root_spec() is Some),
    {
        self.config_root.is_some()
    }

    /// Map a physical path to its configuration-root-relative logical identity.
    ///
    /// Relative paths are read from the invocation directory. Paths outside the root get `..`
    /// components when both share an anchor; a path on another Windows drive stays absolute.
    /// The root itself is `.`. An unrooted context returns the path unchanged.
    pub fn logical(&self, path: &str) -> (r: String)
        ensures
            r@ == self.logical_of(path@),
    {
        match (&self.config_root, &self.invocation_cwd) {
            (Some(config_root), Some(invocation_cwd)) => {
                let root = LexicalPath::parse(&chars_of(config_root.as_str()));
                let cwd = LexicalPath::parse(&chars_of(invocation_cwd.as_str()));
                let physical = cwd.resolve(&LexicalPath::parse(&chars_of(path)));
                let logical = physical.relative_to(&root).render();
                if logical.len() == 0 {
                    let mut dot = String::new();
                    crate::text::push_char(&mut dot, '.');
                    assert(dot@ =~= seq!['.']);
                    dot
                } else {
                    string_from_chars(&logical)
                }
            },
            _ => string_from_chars(&chars_of(path)),
        }
    }

    /// Map a configuration-root-relative logical path back to a physical path; absolute inputs
    /// come back lexically normalized. An unrooted context returns the path unchanged.
    pub fn physical(&self, path: &str) -> (r: String)
        ensures
            r@ == self.physical_of(path@),
    {
        match &self.config_root {
            Some(config_root) => {
                let root = LexicalPath::parse(&chars_of(config_root.as_str()));
                let resolved = root.resolve(&LexicalPath::parse(&chars_of(path)));
                string_from_chars(&resolved.render())
            },
            None => string_from_chars(&chars_of(path)),
        }
    }

    /// The number of logical components below the configuration root (zero for the root;
    /// leading `..` components count like any other).
    pub fn logical_depth(&self, path: &str) -> (r: usize)
        ensures
            r == parse_spec(self.logical_of(path@)).comps.len(),
    {
        let logical = self.logical(path);
        LexicalPath::parse(&chars_of(logical.as_str())).components.len()
    }
}

impl Default for ProjectPaths {
    fn default() -> (r: Self)
        ensures
            r.root_spec() is None,
            r.cwd_spec() is None,
    {
        Self::unrooted()
    }
}

} // verus!
