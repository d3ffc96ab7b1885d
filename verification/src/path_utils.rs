//! Suffix matching of paths against user-written override paths.
use vstd::prelude::*;

use crate::text::{chars_eq, chars_of, is_sep, split_chars, split_spec, views};

verus! {

/// A segment that `Path::components` keeps as a normal component: neither empty nor `.`.
pub open spec fn is_normal_segment(x: Seq<char>) -> bool {
    x.len() > 0 && x != seq!['.']
}

/// A segment that is not empty.
pub open spec fn is_nonempty_segment(x: Seq<char>) -> bool {
    x.len() > 0
}

/// The components of a path on a Unix host, as `Path::components` gives them, each rendered
/// as text: `/` first for an absolute path, `.` first for a path whose first segment is `.`,
/// then every segment that is neither empty nor `.`.
pub open spec fn unix_components(p: Seq<char>) -> Seq<Seq<char>> {
    let parts = split_spec(p, is_sep(false));
    let normal = parts.filter(|x: Seq<char>| is_normal_segment(x));
    if p.len() > 0 && p[0] == '/' {
        seq![seq!['/']] + normal
    } else if parts[0] == seq!['.'] {
        seq![seq!['.']] + normal
    } else {
        normal
    }
}

/// The components of an override path: its non-empty parts between `/` or `\` separators.
pub open spec fn override_components(o: Seq<char>) -> Seq<Seq<char>> {
    split_spec(o, is_sep(true)).filter(|x: Seq<char>| is_nonempty_segment(x))
}

/// Whether the override path names the trailing components of the path: it has at least one
/// component, no more than the path, and each matches the path's component at the same
/// distance from the end.
pub open spec fn matches_override(path: Seq<char>, override_path: Seq<char>) -> bool {
    let pc = unix_components(path);
    let oc = override_components(override_path);
    &&& oc.len() > 0
    &&& oc.len() <= pc.len()
    &&& forall|i: int| 0 <= i < oc.len() ==> #[trigger] oc[i] == pc[pc.len() - oc.len() + i]
}

fn is_dot(x: &Vec<char>) -> (r: bool)
    ensures
        r == (x@ == seq!['.']),
{
    if x.len() == 1 && x[0] == '.' {
        assert(x@ =~= seq!['.']);
        true
    } else {
        false
    }
}

/// Keeps the parts that are non-empty, and also not `.` when `drop_dots` holds.
pub fn keep_segments(parts: Vec<Vec<char>>, drop_dots: bool) -> (r: Vec<Vec<char>>)
    ensures
        drop_dots ==> views(r@) == views(parts@).filter(|x: Seq<char>| is_normal_segment(x)),
        !drop_dots ==> views(r@) == views(parts@).filter(|x: Seq<char>| is_nonempty_segment(x)),
{
    let ghost s = views(parts@);
    let ghost pred = if drop_dots {
        |x: Seq<char>| is_normal_segment(x)
    } else {
        |x: Seq<char>| is_nonempty_segment(x)
    };
    let mut kept: Vec<Vec<char>> = Vec::new();
    proof {
        reveal_with_fuel(Seq::filter, 1);
        assert(s.take(0) =~= Seq::<Seq<char>>::empty());
        assert(views(kept@) =~= s.take(0).filter(pred));
    }
    let n = parts.len();
    for part in it: parts.into_iter()
        invariant
            n == s.len(),
            it.seq().len() == s.len(),
            forall|j: int| 0 <= j < s.len() ==> #[trigger] it.seq()[j]@ == s[j],
            views(kept@) == s.take(it.index()).filter(pred),
            pred == (if drop_dots {
                |x: Seq<char>| is_normal_segment(x)
            } else {
                |x: Seq<char>| is_nonempty_segment(x)
            }),
    {
        proof {
            reveal_with_fuel(Seq::filter, 1);
            assert(s.take(it.index() + 1).drop_last() =~= s.take(it.index()));
            assert(s.take(it.index() + 1).last() == part@);
        }
        let keep = part.len() > 0 && (!drop_dots || !is_dot(&part));
        let ghost before = views(kept@);
        if keep {
            kept.push(part);
            assert(views(kept@) =~= before.push(s[it.index() as int]));
        }
    }
    assert(s.take(s.len() as int) =~= s);
    kept
}

/// The components of `p` on a Unix host, as `Path::components` renders them.
pub fn path_components(p: &Vec<char>) -> (r: Vec<Vec<char>>)
    ensures
        views(r@) == unix_components(p@),
{
    let parts = split_chars(p, false);
    let first_is_dot = is_dot(&parts[0]);
    assert(views(parts@)[0] == parts@[0]@);
    assert(first_is_dot == (split_spec(p@, is_sep(false))[0] == seq!['.']));
    let normal = keep_segments(parts, true);
    if (p.len() > 0 && p[0] == '/') || first_is_dot {
        let mut r: Vec<Vec<char>> = Vec::new();
        let mut head: Vec<char> = Vec::new();
        if p.len() > 0 && p[0] == '/' {
            head.push('/');
        } else {
            head.push('.');
        }
        r.push(head);
        let ghost h = r@;
        let mut i: usize = 0;
        while i < normal.len()
            invariant
                0 <= i <= normal.len(),
                views(r@) == views(h) + views(normal@).take(i as int),
                views(h).len() == 1,
            decreases normal.len() - i,
        {
            let ghost before = views(r@);
            r.push(normal[i].clone());
            assert(views(r@) =~= before.push(normal@[i as int]@));
            assert(views(normal@).take(i + 1) =~= views(normal@).take(i as int).push(
                normal@[i as int]@,
            ));
            i = i + 1;
        }
        assert(views(normal@).take(normal.len() as int) =~= views(normal@));
        assert(views(r@) =~= unix_components(p@));
        r
    } else {
        normal
    }
}

/// Check if a path matches an override path using suffix matching.
///
/// The override is split at `/` and `\`; its non-empty parts must equal the trailing
/// components of the path. `src/lib.rs` matches `project/src/lib.rs` but not
/// `other/src/lib.rs`'s prefix-differing `project/src/lib.rs` override; an empty override
/// matches nothing.
pub fn path_matches_override(actual_path: &str, override_path: &str) -> (r: bool)
    ensures
        r == matches_override(actual_path@, override_path@),
{
    let p = chars_of(actual_path);
    let o = chars_of(override_path);
    let pc = path_components(&p);
    let oc = keep_segments(split_chars(&o, true), false);
    if oc.len() == 0 || oc.len() > pc.len() {
        return false;
    }
    let offset = pc.len() - oc.len();
    let mut i: usize = 0;
    while i < oc.len()
        invariant
            0 <= i <= oc.len(),
            offset + oc.len() == pc.len(),
            views(pc@) == unix_components(p@),
            views(oc@) == override_components(o@),
            p@ == actual_path@,
            o@ == override_path@,
            forall|j: int|
                0 <= j < i ==> #[trigger] override_components(o@)[j] == unix_components(p@)[offset
                    + j],
        decreases oc.len() - i,
    {
        assert(views(oc@)[i as int] == oc@[i as int]@);
        assert(views(pc@)[offset + i] == pc@[offset + i]@);
        if !chars_eq(&oc[i], &pc[offset + i]) {
            return false;
        }
        i = i + 1;
    }
    true
}

/// The text of a component list: components joined by `/`, a leading root component written
/// as a single `/` in front.
pub open spec fn render_components(c: Seq<Seq<char>>) -> Seq<char> {
    if c.len() > 0 && c[0] == seq!['/'] {
        seq!['/'] + crate::text::join_slash(c.drop_first())
    } else {
        crate::text::join_slash(c)
    }
}

/// The canonical text of a path: its components rendered again. Two paths have the same
/// canonical text exactly when `Path` considers them equal (same components).
pub open spec fn canonical(p: Seq<char>) -> Seq<char> {
    render_components(unix_components(p))
}

/// The final component of a path when it is a normal component (`Path::file_name`).
pub open spec fn file_name_of(p: Seq<char>) -> Option<Seq<char>> {
    let c = unix_components(p);
    if c.len() > 0 && c.last() != seq!['/'] && c.last() != seq!['.'] && c.last() != seq!['.', '.'] {
        Some(c.last())
    } else {
        None
    }
}

/// The file name of a path, or the empty text when it has none.
pub open spec fn file_name_or_empty(p: Seq<char>) -> Seq<char> {
    match file_name_of(p) {
        Some(n) => n,
        None => Seq::empty(),
    }
}

/// Index of the last `.` in `s`, or -1.
pub open spec fn last_dot(s: Seq<char>) -> int
    decreases s.len(),
{
    if s.len() == 0 {
        -1
    } else if s.last() == '.' {
        s.len() - 1
    } else {
        last_dot(s.drop_last())
    }
}

/// The extension of a path (`Path::extension`): the text after the last `.` of its file name,
/// unless that `.` is the name's first character or there is none.
pub open spec fn extension_of(p: Seq<char>) -> Option<Seq<char>> {
    match file_name_of(p) {
        Some(n) => if last_dot(n) > 0 {
            Some(n.skip(last_dot(n) + 1))
        } else {
            None
        },
        None => None,
    }
}

/// The canonical text of the parent of a path (`Path::parent`): the path without its final
/// component; `None` for the empty path and for the root alone.
pub open spec fn parent_of(p: Seq<char>) -> Option<Seq<char>> {
    let c = unix_components(p);
    if c.len() > 0 && c.last() != seq!['/'] {
        Some(render_components(c.drop_last()))
    } else {
        None
    }
}

fn is_root_component(x: &Vec<char>) -> (r: bool)
    ensures
        r == (x@ == seq!['/']),
{
    if x.len() == 1 && x[0] == '/' {
        assert(x@ =~= seq!['/']);
        true
    } else {
        false
    }
}

fn is_dot_dot_component(x: &Vec<char>) -> (r: bool)
    ensures
        r == (x@ == seq!['.', '.']),
{
    if x.len() == 2 && x[0] == '.' && x[1] == '.' {
        assert(x@ =~= seq!['.', '.']);
        true
    } else {
        false
    }
}

fn render_component_list(c: &Vec<Vec<char>>, upto: usize) -> (r: Vec<char>)
    requires
        upto <= c.len(),
    ensures
        r@ == render_components(views(c@).take(upto as int)),
{
    let mut parts: Vec<Vec<char>> = Vec::new();
    let mut i: usize = 0;
    let rooted = upto > 0 && is_root_component(&c[0]);
    if rooted {
        i = 1;
    }
    let start = i;
    let ghost t = views(c@).take(upto as int);
    while i < upto
        invariant
            start <= i <= upto <= c.len(),
            t == views(c@).take(upto as int),
            views(parts@) == t.subrange(start as int, i as int),
        decreases upto - i,
    {
        let ghost before = views(parts@);
        parts.push(crate::text::copy_chars(&c[i]));
        assert(views(parts@) =~= before.push(c@[i as int]@));
        i = i + 1;
        assert(views(parts@) =~= t.subrange(start as int, i as int));
    }
    let body = crate::text::join_with_slash(&parts);
    if rooted {
        assert(t[0] == c@[0]@);
        assert(t.subrange(1, upto as int) =~= t.drop_first());
        let mut r: Vec<char> = Vec::new();
        r.push('/');
        let mut j: usize = 0;
        while j < body.len()
            invariant
                0 <= j <= body.len(),
                r@ == seq!['/'] + body@.take(j as int),
            decreases body.len() - j,
        {
            r.push(body[j]);
            j = j + 1;
            assert(r@ =~= seq!['/'] + body@.take(j as int));
        }
        assert(body@.take(body.len() as int) =~= body@);
        r
    } else {
        assert(t.subrange(0, upto as int) =~= t);
        if upto > 0 {
            assert(t[0] == c@[0]@);
        }
        body
    }
}

/// The canonical text of a path.
pub fn canonical_path(p: &str) -> (r: String)
    ensures
        r@ == canonical(p@),
{
    let c = path_components(&chars_of(p));
    let r = render_component_list(&c, c.len());
    assert(views(c@).take(c.len() as int) =~= views(c@));
    crate::text::string_from_chars(&r)
}

/// The file name of a path, if its final component is a normal one.
pub fn file_name(p: &str) -> (r: Option<String>)
    ensures
        match r {
            Some(n) => file_name_of(p@) == Some(n@),
            None => file_name_of(p@) is None,
        },
{
    let c = path_components(&chars_of(p));
    let n = c.len();
    if n == 0 {
        return None;
    }
    assert(views(c@).last() == c@[n - 1]@);
    let last = &c[n - 1];
    if is_root_component(last) || (last.len() == 1 && last[0] == '.') || is_dot_dot_component(last) {
        assert(last.len() == 1 && last[0] == '.' ==> last@ =~= seq!['.']);
        return None;
    }
    assert(last@ != seq!['.']) by {
        if last@.len() == 1 {
            assert(last@[0] == last[0]);
        }
    }
    Some(crate::text::string_from_chars(last))
}

/// The file name of a path, or the empty string when it has none.
pub fn file_name_or_default(p: &str) -> (r: String)
    ensures
        r@ == file_name_or_empty(p@),
{
    match file_name(p) {
        Some(n) => n,
        None => String::new(),
    }
}

/// The extension of a path, if it has one.
pub fn extension(p: &str) -> (r: Option<String>)
    ensures
        match r {
            Some(x) => extension_of(p@) == Some(x@),
            None => extension_of(p@) is None,
        },
{
    match file_name(p) {
        None => None,
        Some(name) => {
            let v = chars_of(name.as_str());
            let mut k = v.len();
            assert(v@.take(k as int) =~= v@);
            while k > 0 && v[k - 1] != '.'
                invariant
                    0 <= k <= v.len(),
                    last_dot(v@) == last_dot(v@.take(k as int)),
                decreases k,
            {
                assert(v@.take(k as int).drop_last() =~= v@.take(k - 1));
                k = k - 1;
            }
            if k <= 1 {
                if k == 1 {
                    assert(v@.take(1).last() == v@[0]);
                }
                None
            } else {
                assert(v@.take(k as int).last() == v@[k - 1]);
                assert(v@.skip(k as int) =~= v@.subrange(k as int, v.len() as int));
                Some(crate::text::string_from_range(&v, k, v.len()))
            }
        },
    }
}

/// The canonical text of the parent of a path, if it has one.
pub fn parent(p: &str) -> (r: Option<String>)
    ensures
        match r {
            Some(x) => parent_of(p@) == Some(x@),
            None => parent_of(p@) is None,
        },
{
    let c = path_components(&chars_of(p));
    let n = c.len();
    if n == 0 {
        return None;
    }
    assert(views(c@).last() == c@[n - 1]@);
    if is_root_component(&c[n - 1]) {
        return None;
    }
    let r = render_component_list(&c, n - 1);
    assert(views(c@).take(n - 1) =~= views(c@).drop_last());
    Some(crate::text::string_from_chars(&r))
}


proof fn lemma_last_dot(s: Seq<char>)
    ensures
        -1 <= last_dot(s) < s.len(),
        last_dot(s) >= 0 ==> s[last_dot(s)] == '.',
        forall|j: int| last_dot(s) < j < s.len() ==> #[trigger] s[j] != '.',
    decreases s.len(),
{
    if s.len() > 0 && s.last() != '.' {
        lemma_last_dot(s.drop_last());
        assert forall|j: int| last_dot(s) < j < s.len() implies #[trigger] s[j] != '.' by {
            if j < s.len() - 1 {
                assert(s.drop_last()[j] == s[j]);
            }
        }
    }
}

/// The extension of a path is the text after the last `.` of its file name: it holds no `.`,
/// and the name is a non-empty stem, a `.` and the extension. A file name with a `.` after its
/// first character always has an extension; one without has none.
pub proof fn law_extension_after_last_dot(p: Seq<char>)
    ensures
        extension_of(p) matches Some(e) ==> {
            &&& file_name_of(p) matches Some(n)
            &&& forall|i: int| 0 <= i < e.len() ==> #[trigger] e[i] != '.'
            &&& n.len() >= e.len() + 2
            &&& n == n.take(n.len() - e.len() - 1) + seq!['.'] + e
        },
        file_name_of(p) matches Some(n) ==> (extension_of(p) is Some <==> exists|i: int|
            1 <= i < n.len() && #[trigger] n[i] == '.'),
{
    if let Some(n) = file_name_of(p) {
        lemma_last_dot(n);
        let k = last_dot(n);
        if k > 0 {
            let e = n.skip(k + 1);
            assert forall|i: int| 0 <= i < e.len() implies #[trigger] e[i] != '.' by {
                assert(e[i] == n[k + 1 + i]);
            }
            assert(n.take(n.len() - e.len() - 1) + seq!['.'] + e =~= n);
            assert(n[k] == '.');
        } else {
            assert forall|i: int| 1 <= i < n.len() implies #[trigger] n[i] != '.' by {
                if k == 0 {
                    assert(k < i);
                }
            }
        }
    }
}

} // verus!
