//! Laws of path contexts: mapping a path to its logical form and back.
use vstd::prelude::*;

use crate::project::{
    has_dot_prefix, unc_parts, windows_rooted, ascii_lower, component_eq_spec, eq_ignore_ascii_case, same_anchor_spec, windows_semantics,
    common_prefix_len, fold_parts, is_ascii_alpha, lexical_absolute_spec, logical_spec,
    normalized, parents, parse_spec, parse_step, physical_spec, relative_to_spec, render_spec,
    resolve_comps, resolve_spec, resolve_step, slash_parts, AnchorView, LexView, PathsView,
};
use crate::text::{is_sep, join_slash, split_spec};

verus! {

/// A component as a split gives it: non-empty, with no `/` and no `\`.
pub open spec fn plain_comp(c: Seq<char>) -> bool {
    &&& c.len() > 0
    &&& forall|j: int| 0 <= j < c.len() ==> #[trigger] c[j] != '/' && c[j] != '\\'
}

/// A component that names an entry: plain, and neither `.` nor `..`.
pub open spec fn named_comp(c: Seq<char>) -> bool {
    plain_comp(c) && c != seq!['.'] && c != seq!['.', '.']
}

/// Every component is plain.
pub open spec fn all_plain(cs: Seq<Seq<char>>) -> bool {
    forall|i: int| 0 <= i < cs.len() ==> plain_comp(#[trigger] cs[i])
}

/// Every component names an entry.
pub open spec fn all_named(cs: Seq<Seq<char>>) -> bool {
    forall|i: int| 0 <= i < cs.len() ==> named_comp(#[trigger] cs[i])
}

proof fn lemma_split_append_plain(s: Seq<char>, t: Seq<char>)
    requires
        forall|j: int| 0 <= j < t.len() ==> #[trigger] t[j] != '/',
    ensures
        split_spec(s + t, is_sep(false)) == split_spec(s, is_sep(false)).update(
            split_spec(s, is_sep(false)).len() - 1,
            split_spec(s, is_sep(false)).last() + t,
        ),
    decreases t.len(),
{
    crate::text::lemma_split_nonempty(s, is_sep(false));
    let sp = split_spec(s, is_sep(false));
    if t.len() == 0 {
        assert(s + t =~= s);
        assert(sp.last() + t =~= sp.last());
        assert(sp.update(sp.len() - 1, sp.last()) =~= sp);
    } else {
        let t0 = t.drop_last();
        lemma_split_append_plain(s, t0);
        assert((s + t).drop_last() =~= s + t0);
        assert((s + t).last() == t.last());
        let sp0 = split_spec(s + t0, is_sep(false));
        assert(!(is_sep(false))(t.last()));
        assert(sp0.last() == sp.last() + t0);
        assert(sp0.last().push(t.last()) =~= sp.last() + t);
        assert(split_spec(s + t, is_sep(false)) =~= sp.update(sp.len() - 1, sp.last() + t));
    }
}

/// Splitting the `/`-join of components without `/` gives the components back.
pub proof fn lemma_split_join(cs: Seq<Seq<char>>)
    requires
        cs.len() >= 1,
        forall|i: int, j: int| 0 <= i < cs.len() && 0 <= j < cs[i].len() ==> #[trigger] cs[i][j] != '/',
    ensures
        split_spec(join_slash(cs), is_sep(false)) == cs,
    decreases cs.len(),
{
    if cs.len() == 1 {
        lemma_split_append_plain(Seq::empty(), cs[0]);
        assert(Seq::<char>::empty() + cs[0] =~= cs[0]);
        assert(split_spec(Seq::<char>::empty(), is_sep(false)) =~= seq![Seq::<char>::empty()]);
        assert(Seq::<char>::empty() + cs[0] =~= cs[0]);
        assert(seq![Seq::<char>::empty()].update(0, Seq::<char>::empty() + cs[0]) =~= cs);
    } else {
        let init = cs.drop_last();
        lemma_split_join(init);
        let s = join_slash(init) + seq!['/'];
        assert(join_slash(cs) == s + cs.last());
        assert(s.drop_last() =~= join_slash(init));
        crate::text::lemma_split_nonempty(join_slash(init), is_sep(false));
        assert(split_spec(s, is_sep(false)) =~= init.push(Seq::empty()));
        let last = cs.last();
        assert forall|j: int| 0 <= j < last.len() implies #[trigger] last[j] != '/' by {
            assert(cs[cs.len() - 1][j] != '/');
        }
        lemma_split_append_plain(s, last);
        assert(Seq::<char>::empty() + last =~= last);
        assert(init.push(Seq::empty()).update(init.len() as int, Seq::<char>::empty() + last) =~= cs);
    }
}


proof fn lemma_fold_named(rooted: bool, cs: Seq<Seq<char>>)
    requires
        all_named(cs),
    ensures
        fold_parts(rooted, cs) == cs,
    decreases cs.len(),
{
    if cs.len() > 0 {
        lemma_fold_named(rooted, cs.drop_last());
        assert(named_comp(cs[cs.len() - 1]));
        assert(cs.last().len() > 0);
        assert(cs.drop_last().push(cs.last()) =~= cs);
    }
}

proof fn lemma_fold_relative(k: nat, rest: Seq<Seq<char>>)
    requires
        all_named(rest),
    ensures
        fold_parts(false, parents(k) + rest) == parents(k) + rest,
    decreases k + rest.len(),
{
    let all = parents(k) + rest;
    if rest.len() > 0 {
        assert(all.drop_last() =~= parents(k) + rest.drop_last());
        lemma_fold_relative(k, rest.drop_last());
        assert(all.last() == rest.last());
        assert(named_comp(rest[rest.len() - 1]));
        assert(rest.last().len() > 0);
        assert(all.drop_last().push(all.last()) =~= all);
    } else if k > 0 {
        assert(all =~= parents(k));
        assert(parents(k).drop_last() =~= parents((k - 1) as nat) + rest);
        lemma_fold_relative((k - 1) as nat, rest);
        assert(parents(k).last() == seq!['.', '.']);
        let prev = parents((k - 1) as nat);
        assert(prev + rest =~= prev);
        if prev.len() > 0 {
            assert(prev.last() == seq!['.', '.']);
        }
        assert(prev.push(seq!['.', '.']) =~= parents(k));
    } else {
        assert(all =~= Seq::<Seq<char>>::empty());
    }
}

/// The components that parsing keeps from parts without separators are plain and not `.`,
/// and not `..` when the path is rooted.
proof fn lemma_fold_parts_comps(rooted: bool, parts: Seq<Seq<char>>)
    requires
        forall|i: int, j: int|
            0 <= i < parts.len() && 0 <= j < parts[i].len() ==> #[trigger] parts[i][j] != '/'
                && parts[i][j] != '\\',
    ensures
        forall|i: int|
            0 <= i < fold_parts(rooted, parts).len() ==> plain_comp(
                #[trigger] fold_parts(rooted, parts)[i],
            ) && fold_parts(rooted, parts)[i] != seq!['.'] && (rooted ==> fold_parts(
                rooted,
                parts,
            )[i] != seq!['.', '.']),
    decreases parts.len(),
{
    if parts.len() > 0 {
        let init = parts.drop_last();
        assert forall|i: int, j: int|
            0 <= i < init.len() && 0 <= j < init[i].len() implies #[trigger] init[i][j] != '/'
            && init[i][j] != '\\' by {
            assert(init[i] == parts[i]);
        }
        lemma_fold_parts_comps(rooted, init);
        let prev = fold_parts(rooted, init);
        let part = parts.last();
        assert forall|j: int| 0 <= j < part.len() implies #[trigger] part[j] != '/' && part[j]
            != '\\' by {
            assert(parts[parts.len() - 1][j] == part[j]);
        }
        let next = fold_parts(rooted, parts);
        assert(next == parse_step(prev, rooted, part));
        assert forall|i: int| 0 <= i < next.len() implies plain_comp(#[trigger] next[i])
            && next[i] != seq!['.'] && (rooted ==> next[i] != seq!['.', '.']) by {
            if i < prev.len() {
                if part == seq!['.', '.'] && prev.len() > 0 && prev.last() != seq!['.', '.'] {
                    assert(next[i] == prev[i]);
                } else if i < next.len() {
                    assert(next[i] == prev[i]);
                }
            } else {
                assert(next[i] == part);
            }
        }
    }
}

/// Common prefixes are equal, and no longer than either list.
proof fn lemma_common_prefix(a: Seq<Seq<char>>, b: Seq<Seq<char>>)
    ensures
        common_prefix_len(a, b, false) <= a.len(),
        common_prefix_len(a, b, false) <= b.len(),
        a.take(common_prefix_len(a, b, false) as int) == b.take(
            common_prefix_len(a, b, false) as int,
        ),
    decreases a.len(),
{
    let n = common_prefix_len(a, b, false);
    if a.len() == 0 || b.len() == 0 || a[0] != b[0] {
        assert(a.take(0) =~= b.take(0));
    } else {
        lemma_common_prefix(a.drop_first(), b.drop_first());
        let m = common_prefix_len(a.drop_first(), b.drop_first(), false);
        assert(n == 1 + m);
        assert forall|i: int| 0 <= i < n implies a.take(n as int)[i] == b.take(n as int)[i] by {
            if i > 0 {
                assert(a.drop_first().take(m as int)[i - 1] == b.drop_first().take(m as int)[i - 1]);
            }
        }
        assert(a.take(n as int) =~= b.take(n as int));
    }
}

/// Resolving onto a rooted base with named components keeps them named.
proof fn lemma_resolve_rooted_named(base: Seq<Seq<char>>, rel: Seq<Seq<char>>)
    requires
        all_named(base),
        forall|i: int| 0 <= i < rel.len() ==> plain_comp(#[trigger] rel[i]) && rel[i] != seq!['.'],
    ensures
        all_named(resolve_comps(base, true, rel)),
    decreases rel.len(),
{
    if rel.len() > 0 {
        let init = rel.drop_last();
        assert forall|i: int| 0 <= i < init.len() implies plain_comp(#[trigger] init[i])
            && init[i] != seq!['.'] by {
            assert(init[i] == rel[i]);
        }
        lemma_resolve_rooted_named(base, init);
        let prev = resolve_comps(base, true, init);
        let c = rel.last();
        assert(plain_comp(rel[rel.len() - 1]));
        let next = resolve_comps(base, true, rel);
        assert(next == resolve_step(prev, true, c));
        assert forall|i: int| 0 <= i < next.len() implies named_comp(#[trigger] next[i]) by {
            if i < prev.len() {
                assert(next[i] == prev[i]);
            } else {
                assert(next[i] == c);
            }
        }
    }
}

/// `k` parent steps then named components, resolved onto a rooted base with at least `k`
/// named components: the base without its last `k` components, then the named components.
proof fn lemma_resolve_parents(base: Seq<Seq<char>>, k: nat, rest: Seq<Seq<char>>)
    requires
        all_named(base),
        k <= base.len(),
        all_named(rest),
    ensures
        resolve_comps(base, true, parents(k) + rest) == base.take(base.len() - k) + rest,
    decreases k + rest.len(),
{
    let rel = parents(k) + rest;
    if rest.len() > 0 {
        assert(rel.drop_last() =~= parents(k) + rest.drop_last());
        lemma_resolve_parents(base, k, rest.drop_last());
        assert(rel.last() == rest.last());
        assert(named_comp(rest[rest.len() - 1]));
        assert((base.take(base.len() - k) + rest.drop_last()).push(rest.last()) =~= base.take(
            base.len() - k,
        ) + rest);
    } else if k > 0 {
        assert(rel =~= parents(k));
        assert(parents(k).drop_last() =~= parents((k - 1) as nat) + rest);
        lemma_resolve_parents(base, (k - 1) as nat, rest);
        let prev = base.take(base.len() - (k - 1));
        assert(parents((k - 1) as nat) + rest =~= parents((k - 1) as nat));
        assert(prev.len() > 0);
        assert(prev.last() == base[base.len() - k]);
        assert(named_comp(base[base.len() - k]));
        assert(prev.drop_last() =~= base.take(base.len() - k));
        assert(base.take(base.len() - k) + rest =~= base.take(base.len() - k));
    } else {
        assert(rel =~= Seq::<Seq<char>>::empty());
        assert(base.take(base.len() as int) =~= base);
        assert(base + rest =~= base);
    }
}


/// The parts of a split hold no separator, and only characters of the split text.
proof fn lemma_split_chars(s: Seq<char>, c: char)
    requires
        forall|k: int| 0 <= k < s.len() ==> #[trigger] s[k] != c,
    ensures
        forall|i: int, j: int|
            0 <= i < split_spec(s, is_sep(false)).len() && 0 <= j < split_spec(
                s,
                is_sep(false),
            )[i].len() ==> #[trigger] split_spec(s, is_sep(false))[i][j] != '/'
                && split_spec(s, is_sep(false))[i][j] != c,
    decreases s.len(),
{
    if s.len() > 0 {
        let init = s.drop_last();
        lemma_split_chars(init, c);
        crate::text::lemma_split_nonempty(init, is_sep(false));
        let prev = split_spec(init, is_sep(false));
        let next = split_spec(s, is_sep(false));
        let x = s.last();
        assert(x == s[s.len() - 1]);
        assert forall|i: int, j: int|
            0 <= i < next.len() && 0 <= j < next[i].len() implies #[trigger] next[i][j] != '/'
            && next[i][j] != c by {
            if (is_sep(false))(x) {
                if i < prev.len() {
                    assert(next[i] == prev[i]);
                }
            } else {
                if i < prev.len() - 1 {
                    assert(next[i] == prev[i]);
                } else {
                    assert(next[i] == prev.last().push(x));
                    if j < prev.last().len() {
                        assert(next[i][j] == prev[prev.len() - 1][j]);
                    }
                }
            }
        }
    }
}

/// A normalized path holds no `\`.
proof fn lemma_normalized_no_backslash(raw: Seq<char>)
    ensures
        forall|k: int| 0 <= k < normalized(raw).len() ==> #[trigger] normalized(raw)[k] != '\\',
{
}

/// The parts of a path after its normalization hold no separator.
proof fn lemma_normalized_parts(v: Seq<char>)
    requires
        forall|k: int| 0 <= k < v.len() ==> #[trigger] v[k] != '\\',
    ensures
        forall|i: int, j: int|
            0 <= i < slash_parts(v).len() && 0 <= j < slash_parts(v)[i].len()
                ==> #[trigger] slash_parts(v)[i][j] != '/' && slash_parts(v)[i][j] != '\\',
{
    lemma_split_chars(v, '\\');
}

/// The components that parsing keeps are plain and not `.`; those of a rooted path name
/// entries.
proof fn lemma_parse_comps(raw: Seq<char>)
    ensures
        forall|i: int|
            0 <= i < parse_spec(raw).comps.len() ==> plain_comp(#[trigger] parse_spec(raw).comps[i])
                && parse_spec(raw).comps[i] != seq!['.'],
        parse_spec(raw).anchor is UnixRoot ==> parse_spec(raw).rooted && all_named(
            parse_spec(raw).comps,
        ),
        parse_spec(raw).anchor is Relative ==> !parse_spec(raw).rooted,
        parse_spec(raw).rooted ==> all_named(parse_spec(raw).comps),
        parse_spec(raw).anchor matches AnchorView::Drive(d) ==> d.len() == 2 && drive_like(d),
        parse_spec(raw).anchor matches AnchorView::Unc(server, share) ==> plain_comp(server)
            && plain_comp(share) && parse_spec(raw).rooted,
{
    let v = normalized(raw);
    lemma_normalized_no_backslash(raw);
    if v.len() >= 2 && v[0] == '/' && v[1] == '/' && crate::project::unc_parts(v).len() >= 2 {
        let parts = crate::project::unc_parts(v);
        let w = v.skip(2);
        assert forall|k: int| 0 <= k < w.len() implies #[trigger] w[k] != '\\' by {
            assert(w[k] == v[k + 2]);
        }
        lemma_normalized_parts(w);
        let sp = slash_parts(w);
        let pred = |x: Seq<char>| crate::path_utils::is_nonempty_segment(x);
        assert forall|i: int, j: int|
            0 <= i < parts.skip(2).len() && 0 <= j < parts.skip(2)[i].len() implies #[trigger] parts.skip(
            2,
        )[i][j] != '/' && parts.skip(2)[i][j] != '\\' by {
            let x = parts.skip(2)[i];
            assert(parts.contains(x)) by {
                assert(parts[i + 2] == x);
            }
            sp.lemma_filter_contains_rev(pred, x);
            let m = choose|m: int| 0 <= m < sp.len() && sp[m] == x;
            assert(sp[m][j] == x[j]);
        }
        lemma_fold_parts_comps(true, parts.skip(2));
        assert forall|i: int| 0 <= i < 2 implies plain_comp(#[trigger] parts[i]) by {
            let x = parts[i];
            assert(parts.contains(x));
            sp.lemma_filter_contains_rev(pred, x);
            let m = choose|m: int| 0 <= m < sp.len() && sp[m] == x;
            assert forall|j: int| 0 <= j < x.len() implies #[trigger] x[j] != '/' && x[j] != '\\' by {
                assert(sp[m][j] == x[j]);
            }
            assert(pred(x));
        }
        assert(plain_comp(parts[0]) && plain_comp(parts[1]));
    } else if v.len() >= 2 && crate::project::is_ascii_alpha(v[0]) && v[1] == ':' {
        let rooted = v.len() >= 3 && v[2] == '/';
        let w = v.skip(
            if rooted {
                3
            } else {
                2
            },
        );
        assert forall|k: int| 0 <= k < w.len() implies #[trigger] w[k] != '\\' by {
            if rooted {
                assert(w[k] == v[k + 3]);
            } else {
                assert(w[k] == v[k + 2]);
            }
        }
        lemma_normalized_parts(w);
        lemma_fold_parts_comps(rooted, slash_parts(w));
    } else if v.len() >= 1 && v[0] == '/' {
        let w = v.skip(1);
        assert forall|k: int| 0 <= k < w.len() implies #[trigger] w[k] != '\\' by {
            assert(w[k] == v[k + 1]);
        }
        lemma_normalized_parts(w);
        lemma_fold_parts_comps(true, slash_parts(w));
    } else {
        lemma_normalized_parts(v);
        lemma_fold_parts_comps(false, slash_parts(v));
    }
}


/// The `/`-join of plain components: no `\\`, it begins with the first component, and a `/`
/// follows that component when more come.
proof fn lemma_join_front(cs: Seq<Seq<char>>)
    requires
        cs.len() >= 1,
        all_plain(cs),
    ensures
        forall|k: int| 0 <= k < join_slash(cs).len() ==> #[trigger] join_slash(cs)[k] != '\\',
        join_slash(cs).len() >= cs[0].len(),
        join_slash(cs).take(cs[0].len() as int) == cs[0],
        cs.len() >= 2 ==> join_slash(cs).len() > cs[0].len() && join_slash(cs)[cs[0].len() as int]
            == '/',
        cs.len() == 1 ==> join_slash(cs) == cs[0],
    decreases cs.len(),
{
    assert(plain_comp(cs[0]));
    if cs.len() == 1 {
        assert(cs[0].take(cs[0].len() as int) =~= cs[0]);
        assert forall|k: int| 0 <= k < join_slash(cs).len() implies #[trigger] join_slash(cs)[k]
            != '\\' by {
            assert(cs[0][k] != '\\');
        }
    } else {
        let init = cs.drop_last();
        assert forall|i: int| 0 <= i < init.len() implies plain_comp(#[trigger] init[i]) by {
            assert(init[i] == cs[i]);
        }
        lemma_join_front(init);
        let j0 = join_slash(init);
        let last = cs.last();
        assert(plain_comp(cs[cs.len() - 1]));
        let j = join_slash(cs);
        assert(j == j0 + seq!['/'] + last);
        assert(init[0] == cs[0]);
        assert(j.take(cs[0].len() as int) =~= j0.take(cs[0].len() as int));
        if init.len() == 1 {
            assert(j[cs[0].len() as int] == '/');
        } else {
            assert(j[cs[0].len() as int] == j0[cs[0].len() as int]);
        }
        assert forall|k: int| 0 <= k < j.len() implies #[trigger] j[k] != '\\' by {
            if k < j0.len() {
                assert(j[k] == j0[k]);
            } else if k > j0.len() {
                assert(j[k] == last[k - j0.len() - 1]);
            }
        }
    }
}

/// Whether a text begins like a drive (`X:`).
pub open spec fn drive_like(s: Seq<char>) -> bool {
    s.len() >= 2 && is_ascii_alpha(s[0]) && s[1] == ':'
}

/// A relative path of plain components, the first not `.`, that does not begin like a drive,
/// parses back to exactly those components.
proof fn lemma_parse_relative_join(k: nat, rest: Seq<Seq<char>>)
    requires
        all_named(rest),
        k + rest.len() >= 1,
        !drive_like(join_slash(parents(k) + rest)),
    ensures
        parse_spec(join_slash(parents(k) + rest)) == (LexView {
            anchor: AnchorView::Relative,
            rooted: false,
            comps: parents(k) + rest,
        }),
{
    let cs = parents(k) + rest;
    assert forall|i: int| 0 <= i < cs.len() implies plain_comp(#[trigger] cs[i]) && cs[i] != seq![
        '.',
    ] by {
        if i < k {
            assert(cs[i] == seq!['.', '.']);
            assert(seq!['.', '.'] != seq!['.']) by {
                assert(seq!['.', '.'].len() != seq!['.'].len());
            }
        } else {
            assert(cs[i] == rest[i - k]);
        }
    }
    lemma_join_front(cs);
    let l = join_slash(cs);
    let c0 = cs[0];
    assert(plain_comp(c0));
    assert(l[0] == c0[0]) by {
        assert(l.take(c0.len() as int)[0] == c0[0]);
    }
    assert(!crate::project::has_dot_prefix(l)) by {
        if l.len() >= 2 && l[0] == '.' && l[1] == '/' {
            if c0.len() >= 2 {
                assert(l[1] == l.take(c0.len() as int)[1]);
                assert(c0[1] != '/');
            } else {
                assert(c0 =~= seq!['.']);
            }
        }
    }
    assert(l != seq!['.']) by {
        if l == seq!['.'] {
            if cs.len() >= 2 {
                assert(l.len() > c0.len());
            }
            assert(c0 =~= seq!['.']);
        }
    }
    assert(normalized(l) =~= l);
    assert(l[0] != '/');
    assert forall|i: int, j: int| 0 <= i < cs.len() && 0 <= j < cs[i].len() implies #[trigger] cs[i][j]
        != '/' by {
        assert(plain_comp(cs[i]));
    }
    lemma_split_join(cs);
    lemma_fold_relative(k, rest);
}

/// Mapping a path to its logical form in a context and back to a physical path gives the path
/// made absolute against the invocation directory (unchanged in an unrooted context), when the
/// root, the invocation directory and the path are Unix paths and the logical form does not
/// begin like a drive (`c:`), which would read back as a drive path.
pub proof fn law_logical_then_physical(pv: PathsView, p: Seq<char>)
    requires
        pv.root is Some <==> pv.cwd is Some,
        pv.root matches Some(root) ==> parse_spec(root).anchor is UnixRoot,
        pv.cwd matches Some(cwd) ==> parse_spec(cwd).anchor is UnixRoot,
        pv.root is Some ==> (parse_spec(p).anchor is Relative || parse_spec(p).anchor is UnixRoot),
        !drive_like(pv.logical_of(p)),
    ensures
        pv.physical_of(pv.logical_of(p)) == match pv.cwd {
            Some(cwd) => lexical_absolute_spec(p, cwd),
            None => p,
        },
{
    if let (Some(root), Some(cwd)) = (pv.root, pv.cwd) {
        let c = parse_spec(cwd);
        let pp = parse_spec(p);
        let r = parse_spec(root);
        lemma_parse_comps(cwd);
        lemma_parse_comps(p);
        lemma_parse_comps(root);
        let phys = resolve_spec(c, pp);
        if pp.anchor is Relative {
            lemma_resolve_rooted_named(c.comps, pp.comps);
            assert(phys == LexView {
                anchor: c.anchor,
                rooted: c.rooted,
                comps: resolve_comps(c.comps, c.rooted, pp.comps),
            });
        } else {
            assert(phys == pp);
        }
        assert(phys.anchor is UnixRoot && phys.rooted && all_named(phys.comps));
        let n = common_prefix_len(phys.comps, r.comps, false);
        lemma_common_prefix(phys.comps, r.comps);
        let k = (r.comps.len() - n) as nat;
        let rest = phys.comps.skip(n as int);
        assert forall|i: int| 0 <= i < rest.len() implies named_comp(#[trigger] rest[i]) by {
            assert(rest[i] == phys.comps[i + n]);
        }
        let rel = relative_to_spec(phys, r);
        assert(rel == LexView {
            anchor: AnchorView::Relative,
            rooted: false,
            comps: parents(k) + rest,
        });
        let l = render_spec(rel);
        assert(l == join_slash(parents(k) + rest));
        let logical = logical_spec(root, cwd, p);
        assert(phys.comps.take(n as int) + rest =~= phys.comps);
        if k + rest.len() == 0 {
            assert(parents(k) + rest =~= Seq::<Seq<char>>::empty());
            assert(logical == seq!['.']);
            let back = parse_spec(seq!['.']);
            assert(normalized(seq!['.']) =~= Seq::<char>::empty());
            assert(slash_parts(Seq::<char>::empty()) =~= seq![Seq::<char>::empty()]);
            let one = seq![Seq::<char>::empty()];
            assert(one.drop_last() =~= Seq::<Seq<char>>::empty());
            assert(one.last() == Seq::<char>::empty());
            assert(fold_parts(false, one.drop_last()) == Seq::<Seq<char>>::empty());
            assert(fold_parts(false, one) =~= Seq::<Seq<char>>::empty());
            assert(back == LexView {
                anchor: AnchorView::Relative,
                rooted: false,
                comps: Seq::<Seq<char>>::empty(),
            });
            assert(r.comps.take(n as int) =~= r.comps);
            assert(phys.comps.take(n as int) =~= phys.comps);
            assert(resolve_spec(r, back) == phys);
        } else {
            assert forall|i: int| 0 <= i < (parents(k) + rest).len() implies plain_comp(
                #[trigger] (parents(k) + rest)[i],
            ) by {
                if i >= k {
                    assert((parents(k) + rest)[i] == rest[i - k]);
                }
            }
            lemma_join_front(parents(k) + rest);
            assert(l.len() > 0) by {
                assert(plain_comp((parents(k) + rest)[0])) by {
                    if k == 0 {
                        assert((parents(k) + rest)[0] == rest[0]);
                    }
                }
            }
            assert(logical == l);
            lemma_parse_relative_join(k, rest);
            lemma_resolve_parents(r.comps, k, rest);
            assert(r.comps.take(r.comps.len() - k) =~= phys.comps.take(n as int));
            assert(resolve_spec(r, parse_spec(l)) == phys);
        }
    }
}


/// Component lists equal up to ASCII case, component by component.
pub open spec fn comps_case_eq(a: Seq<Seq<char>>, b: Seq<Seq<char>>) -> bool {
    &&& a.len() == b.len()
    &&& forall|i: int| 0 <= i < a.len() ==> eq_ignore_ascii_case(#[trigger] a[i], b[i])
}

/// Anchors equal up to ASCII case in drive letters and UNC names.
pub open spec fn anchor_case_eq(x: AnchorView, y: AnchorView) -> bool {
    match (x, y) {
        (AnchorView::Relative, AnchorView::Relative) => true,
        (AnchorView::UnixRoot, AnchorView::UnixRoot) => true,
        (AnchorView::WindowsRoot, AnchorView::WindowsRoot) => true,
        (AnchorView::Drive(a), AnchorView::Drive(b)) => eq_ignore_ascii_case(a, b),
        (AnchorView::Unc(s1, h1), AnchorView::Unc(s2, h2)) => eq_ignore_ascii_case(s1, s2)
            && eq_ignore_ascii_case(h1, h2),
        _ => false,
    }
}

proof fn lemma_case_eq_refl(a: Seq<char>)
    ensures
        eq_ignore_ascii_case(a, a),
{
}

proof fn lemma_case_eq_sym(a: Seq<char>, b: Seq<char>)
    requires
        eq_ignore_ascii_case(a, b),
    ensures
        eq_ignore_ascii_case(b, a),
{
    assert forall|i: int| 0 <= i < b.len() implies ascii_lower(#[trigger] b[i]) == ascii_lower(
        a[i],
    ) by {
        assert(ascii_lower(a[i]) == ascii_lower(b[i]));
    }
}

proof fn lemma_case_eq_concat(a1: Seq<char>, a2: Seq<char>, b1: Seq<char>, b2: Seq<char>)
    requires
        eq_ignore_ascii_case(a1, b1),
        eq_ignore_ascii_case(a2, b2),
    ensures
        eq_ignore_ascii_case(a1 + a2, b1 + b2),
{
    let a = a1 + a2;
    let b = b1 + b2;
    assert forall|i: int| 0 <= i < a.len() implies ascii_lower(#[trigger] a[i]) == ascii_lower(
        b[i],
    ) by {
        if i < a1.len() {
            assert(a[i] == a1[i] && b[i] == b1[i]);
            assert(ascii_lower(a1[i]) == ascii_lower(b1[i]));
        } else {
            assert(a[i] == a2[i - a1.len()] && b[i] == b2[i - a1.len()]);
            assert(ascii_lower(a2[i - a1.len()]) == ascii_lower(b2[i - a1.len()]));
        }
    }
}

proof fn lemma_join_case_eq(a: Seq<Seq<char>>, b: Seq<Seq<char>>)
    requires
        comps_case_eq(a, b),
    ensures
        eq_ignore_ascii_case(join_slash(a), join_slash(b)),
    decreases a.len(),
{
    if a.len() == 0 {
    } else if a.len() == 1 {
        assert(eq_ignore_ascii_case(a[0], b[0]));
    } else {
        let a0 = a.drop_last();
        let b0 = b.drop_last();
        assert forall|i: int| 0 <= i < a0.len() implies eq_ignore_ascii_case(#[trigger] a0[i], b0[i]) by {
            assert(a0[i] == a[i] && b0[i] == b[i]);
            assert(eq_ignore_ascii_case(a[i], b[i]));
        }
        lemma_join_case_eq(a0, b0);
        lemma_case_eq_refl(seq!['/']);
        lemma_case_eq_concat(join_slash(a0), seq!['/'], join_slash(b0), seq!['/']);
        assert(eq_ignore_ascii_case(a[a.len() - 1], b[a.len() - 1]));
        lemma_case_eq_concat(
            join_slash(a0) + seq!['/'],
            a.last(),
            join_slash(b0) + seq!['/'],
            b.last(),
        );
    }
}

/// Lexical paths that agree up to ASCII case render to texts that agree up to ASCII case.
proof fn lemma_render_case_eq(a: LexView, b: LexView)
    requires
        anchor_case_eq(a.anchor, b.anchor),
        a.rooted == b.rooted,
        comps_case_eq(a.comps, b.comps),
    ensures
        eq_ignore_ascii_case(render_spec(a), render_spec(b)),
{
    let ba = join_slash(a.comps);
    let bb = join_slash(b.comps);
    lemma_join_case_eq(a.comps, b.comps);
    let sl = seq!['/'];
    lemma_case_eq_refl(sl);
    lemma_case_eq_concat(sl, ba, sl, bb);
    match (a.anchor, b.anchor) {
        (AnchorView::Drive(x), AnchorView::Drive(y)) => {
            lemma_case_eq_concat(x, sl, y, sl);
            lemma_case_eq_concat(x + sl, ba, y + sl, bb);
            lemma_case_eq_concat(x, ba, y, bb);
        },
        (AnchorView::Unc(s1, h1), AnchorView::Unc(s2, h2)) => {
            let ss = seq!['/', '/'];
            lemma_case_eq_refl(ss);
            lemma_case_eq_concat(ss, s1, ss, s2);
            lemma_case_eq_concat(ss + s1, sl, ss + s2, sl);
            lemma_case_eq_concat(ss + s1 + sl, h1, ss + s2 + sl, h2);
            lemma_case_eq_concat(ss + s1 + sl + h1, sl, ss + s2 + sl + h2, sl);
            lemma_case_eq_concat(ss + s1 + sl + h1 + sl, ba, ss + s2 + sl + h2 + sl, bb);
        },
        _ => {},
    }
}

/// Common prefixes agree component by component under the comparison used, and are no longer
/// than either list.
proof fn lemma_common_prefix_w(a: Seq<Seq<char>>, b: Seq<Seq<char>>, w: bool)
    ensures
        common_prefix_len(a, b, w) <= a.len(),
        common_prefix_len(a, b, w) <= b.len(),
        forall|i: int|
            0 <= i < common_prefix_len(a, b, w) ==> component_eq_spec(#[trigger] a[i], b[i], w),
    decreases a.len(),
{
    if a.len() == 0 || b.len() == 0 || !component_eq_spec(a[0], b[0], w) {
    } else {
        lemma_common_prefix_w(a.drop_first(), b.drop_first(), w);
        let n = common_prefix_len(a, b, w);
        assert forall|i: int| 0 <= i < n implies component_eq_spec(#[trigger] a[i], b[i], w) by {
            if i > 0 {
                assert(a.drop_first()[i - 1] == a[i] && b.drop_first()[i - 1] == b[i]);
            }
        }
    }
}


/// The `/`-join of two non-empty lists of parts is the join of each, with a `/` between.
proof fn lemma_join_append(x: Seq<Seq<char>>, y: Seq<Seq<char>>)
    requires
        x.len() >= 1,
        y.len() >= 1,
    ensures
        join_slash(x + y) == join_slash(x) + seq!['/'] + join_slash(y),
    decreases y.len(),
{
    if y.len() == 1 {
        assert((x + y).drop_last() =~= x);
        assert((x + y).last() == y[0]);
    } else {
        let y0 = y.drop_last();
        lemma_join_append(x, y0);
        assert((x + y).drop_last() =~= x + y0);
        assert((x + y).last() == y.last());
        assert(join_slash(x + y) =~= join_slash(x) + seq!['/'] + join_slash(y));
    }
}

/// A text without `\`, not `.` and not starting with `./`, is its own normal form.
proof fn lemma_normalized_same(v: Seq<char>)
    requires
        v.len() > 0,
        forall|k: int| 0 <= k < v.len() ==> #[trigger] v[k] != '\\',
        !has_dot_prefix(v),
        v != seq!['.'],
    ensures
        normalized(v) == v,
{
    assert(v.map_values(|c: char| crate::project::forward_slash(c)) =~= v);
}

/// Filtering a list whose items all pass keeps the list.
proof fn lemma_filter_all(x: Seq<Seq<char>>, pred: spec_fn(Seq<char>) -> bool)
    requires
        forall|i: int| 0 <= i < x.len() ==> pred(#[trigger] x[i]),
    ensures
        x.filter(pred) == x,
    decreases x.len(),
{
    reveal(Seq::filter);
    if x.len() > 0 {
        let x0 = x.drop_last();
        assert forall|i: int| 0 <= i < x0.len() implies pred(#[trigger] x0[i]) by {
            assert(x0[i] == x[i]);
        }
        lemma_filter_all(x0, pred);
        assert(pred(x[x.len() - 1]));
        assert(x0.push(x.last()) =~= x);
    }
}

/// Whether a lexical path is absolute at a Unix root, a drive root or a UNC share, with
/// components that name entries, a two-character drive and plain UNC names.
pub open spec fn absolute_named(q: LexView) -> bool {
    &&& q.rooted
    &&& all_named(q.comps)
    &&& match q.anchor {
        AnchorView::UnixRoot => true,
        AnchorView::Drive(d) => d.len() == 2 && drive_like(d),
        AnchorView::Unc(server, share) => plain_comp(server) && plain_comp(share),
        _ => false,
    }
}

/// Rendering an absolute path and parsing the text gives the path back.
#[verifier::spinoff_prover]
#[verifier::rlimit(40)]
proof fn lemma_parse_render(q: LexView)
    requires
        absolute_named(q),
    ensures
        parse_spec(render_spec(q)) == q,
{
    let cs = q.comps;
    let body = join_slash(cs);
    let raw = render_spec(q);
    if cs.len() > 0 {
        assert forall|i: int| 0 <= i < cs.len() implies plain_comp(#[trigger] cs[i]) by {
            assert(named_comp(cs[i]));
        }
        lemma_join_front(cs);
        assert(body.take(cs[0].len() as int)[0] == cs[0][0]);
        assert(body[0] == cs[0][0]);
        assert(plain_comp(cs[0]));
        assert forall|i: int, j: int| 0 <= i < cs.len() && 0 <= j < cs[i].len() implies #[trigger] cs[i][j]
            != '/' by {
            assert(plain_comp(cs[i]));
        }
        lemma_split_join(cs);
        lemma_fold_named(true, cs);
        assert(fold_parts(true, slash_parts(body)) == cs);
    } else {
        assert(body =~= Seq::<char>::empty());
        assert(slash_parts(body) =~= seq![Seq::<char>::empty()]);
        let one = seq![Seq::<char>::empty()];
        assert(one.drop_last() =~= Seq::<Seq<char>>::empty());
        assert(one.last() == Seq::<char>::empty());
        assert(fold_parts(true, one.drop_last()) == Seq::<Seq<char>>::empty());
        assert(fold_parts(true, one) =~= Seq::<Seq<char>>::empty());
        assert(fold_parts(true, slash_parts(body)) == cs);
    }
    match q.anchor {
        AnchorView::UnixRoot => {
            let sl = seq!['/'];
            assert(raw =~= sl + body);
            assert forall|k: int| 0 <= k < raw.len() implies #[trigger] raw[k] != '\\' by {
                if k > 0 {
                    assert(raw[k] == body[k - 1]);
                }
            }
            lemma_normalized_same(raw);
            let v = normalized(raw);
            assert(v.skip(1) =~= body);
            if v.len() >= 2 {
                assert(v[1] == body[0]);
            }
            assert(!windows_rooted(raw));
        },
        AnchorView::Drive(d) => {
            let sl = seq!['/'];
            assert(raw =~= d + sl + body);
            assert forall|k: int| 0 <= k < raw.len() implies #[trigger] raw[k] != '\\' by {
                if k >= 3 {
                    assert(raw[k] == body[k - 3]);
                }
            }
            lemma_normalized_same(raw);
            let v = normalized(raw);
            assert(v.take(2) =~= d);
            assert(v.skip(3) =~= body);
        },
        AnchorView::Unc(server, share) => {
            let all = seq![server, share] + cs;
            assert forall|i: int| 0 <= i < all.len() implies plain_comp(#[trigger] all[i]) by {
                if i >= 2 {
                    assert(all[i] == cs[i - 2]);
                    assert(named_comp(cs[i - 2]));
                }
            }
            assert(join_slash(seq![server, share]) =~= server + seq!['/'] + share) by {
                assert(seq![server, share].drop_last() =~= seq![server]);
                assert(seq![server, share].last() == share);
                assert(join_slash(seq![server]) == server);
            }
            let tail = if cs.len() > 0 {
                lemma_join_append(seq![server, share], cs);
                join_slash(all)
            } else {
                assert(all =~= seq![server, share]);
                join_slash(all)
            };
            let ss = seq!['/', '/'];
            assert(raw =~= ss + tail);
            lemma_join_front(all);
            assert forall|k: int| 0 <= k < raw.len() implies #[trigger] raw[k] != '\\' by {
                if k >= 2 {
                    assert(raw[k] == tail[k - 2]);
                }
            }
            lemma_normalized_same(raw);
            let v = normalized(raw);
            assert(v.skip(2) =~= tail);
            assert forall|i: int, j: int| 0 <= i < all.len() && 0 <= j < all[i].len() implies #[trigger] all[i][j]
                != '/' by {
                assert(plain_comp(all[i]));
            }
            lemma_split_join(all);
            let pred = |x: Seq<char>| crate::path_utils::is_nonempty_segment(x);
            assert forall|i: int| 0 <= i < all.len() implies pred(#[trigger] all[i]) by {
                assert(plain_comp(all[i]));
            }
            lemma_filter_all(all, pred);
            assert(unc_parts(v) == all);
            assert(all.skip(2) =~= cs);
            assert(all[0] == server && all[1] == share);
        },
        _ => {},
    }
}


/// Whether a path parses as absolute: rooted at a Unix root, a drive root or a UNC share.
pub open spec fn absolute_anchor(q: LexView) -> bool {
    q.rooted && (q.anchor is UnixRoot || q.anchor is Drive || q.anchor is Unc)
}

/// Mapping a path to its logical form and back to a physical path gives the path made absolute
/// against the invocation directory, up to ASCII case (drive letters, UNC names and the
/// components shared with the root compare without regard to case and come back as the root
/// writes them); in an unrooted context the path is unchanged. This holds when the root and
/// the invocation directory are absolute at a Unix root, a drive root or a UNC share, the path
/// is relative or absolute in one of those ways, and the logical form begins like a drive
/// (`c:`) only when it is the absolute path itself (a relative form beginning so would read
/// back as a drive path).
#[verifier::spinoff_prover]
#[verifier::rlimit(60)]
pub proof fn law_logical_then_physical_up_to_case(pv: PathsView, p: Seq<char>)
    requires
        pv.root is Some <==> pv.cwd is Some,
        pv.root matches Some(root) ==> absolute_anchor(parse_spec(root)),
        pv.cwd matches Some(cwd) ==> absolute_anchor(parse_spec(cwd)),
        pv.root is Some ==> (parse_spec(p).anchor is Relative || absolute_anchor(parse_spec(p))),
        pv.cwd matches Some(cwd) ==> (drive_like(pv.logical_of(p)) ==> pv.logical_of(p)
            == lexical_absolute_spec(p, cwd)),
    ensures
        eq_ignore_ascii_case(
            pv.physical_of(pv.logical_of(p)),
            match pv.cwd {
                Some(cwd) => lexical_absolute_spec(p, cwd),
                None => p,
            },
        ),
{
    if let (Some(root), Some(cwd)) = (pv.root, pv.cwd) {
        let c = parse_spec(cwd);
        let pp = parse_spec(p);
        let r = parse_spec(root);
        lemma_parse_comps(cwd);
        lemma_parse_comps(p);
        lemma_parse_comps(root);
        let phys = resolve_spec(c, pp);
        if pp.anchor is Relative {
            lemma_resolve_rooted_named(c.comps, pp.comps);
            assert(phys == LexView {
                anchor: c.anchor,
                rooted: c.rooted,
                comps: resolve_comps(c.comps, c.rooted, pp.comps),
            });
        } else {
            assert(phys == pp);
        }
        assert(absolute_named(phys));
        assert(absolute_named(r));
        let abs = render_spec(phys);
        assert(abs == lexical_absolute_spec(p, cwd));
        let logical = logical_spec(root, cwd, p);
        assert(logical == pv.logical_of(p));
        assert(abs.len() > 0);
        if logical == abs {
            lemma_parse_render(phys);
            assert(resolve_spec(r, phys) == phys);
            assert(pv.physical_of(logical) == abs);
            lemma_case_eq_refl(abs);
        } else {
            assert(!drive_like(logical));
            assert(same_anchor_spec(phys, r));
            let w = windows_semantics(phys.anchor);
            let n = common_prefix_len(phys.comps, r.comps, w);
            lemma_common_prefix_w(phys.comps, r.comps, w);
            let k = (r.comps.len() - n) as nat;
            let rest = phys.comps.skip(n as int);
            assert forall|i: int| 0 <= i < rest.len() implies named_comp(#[trigger] rest[i]) by {
                assert(rest[i] == phys.comps[i + n]);
            }
            let rel = relative_to_spec(phys, r);
            assert(rel == LexView {
                anchor: AnchorView::Relative,
                rooted: false,
                comps: parents(k) + rest,
            });
            let l = render_spec(rel);
            assert(l == join_slash(parents(k) + rest));
            let result_comps = r.comps.take(r.comps.len() - k) + rest;
            let result = LexView { anchor: r.anchor, rooted: r.rooted, comps: result_comps };
            if k + rest.len() == 0 {
                assert(parents(k) + rest =~= Seq::<Seq<char>>::empty());
                assert(logical == seq!['.']);
                let back = parse_spec(seq!['.']);
                assert(normalized(seq!['.']) =~= Seq::<char>::empty());
                assert(slash_parts(Seq::<char>::empty()) =~= seq![Seq::<char>::empty()]);
                let one = seq![Seq::<char>::empty()];
                assert(one.drop_last() =~= Seq::<Seq<char>>::empty());
                assert(one.last() == Seq::<char>::empty());
                assert(fold_parts(false, one.drop_last()) == Seq::<Seq<char>>::empty());
                assert(fold_parts(false, one) =~= Seq::<Seq<char>>::empty());
                assert(back == LexView {
                    anchor: AnchorView::Relative,
                    rooted: false,
                    comps: Seq::<Seq<char>>::empty(),
                });
                assert(result_comps =~= r.comps);
                assert(resolve_spec(r, back) == result);
            } else {
                assert forall|i: int| 0 <= i < (parents(k) + rest).len() implies plain_comp(
                    #[trigger] (parents(k) + rest)[i],
                ) by {
                    if i >= k {
                        assert((parents(k) + rest)[i] == rest[i - k]);
                    }
                }
                lemma_join_front(parents(k) + rest);
                assert(l.len() > 0) by {
                    assert(plain_comp((parents(k) + rest)[0])) by {
                        if k == 0 {
                            assert((parents(k) + rest)[0] == rest[0]);
                        }
                    }
                }
                assert(logical == l);
                lemma_parse_relative_join(k, rest);
                lemma_resolve_parents(r.comps, k, rest);
                assert(resolve_spec(r, parse_spec(l)) == result);
            }
            assert(pv.physical_of(logical) == render_spec(result));
            assert(anchor_case_eq(result.anchor, phys.anchor)) by {
                match (phys.anchor, r.anchor) {
                    (AnchorView::Drive(a), AnchorView::Drive(b)) => {
                        lemma_case_eq_sym(a, b);
                    },
                    (AnchorView::Unc(s1, h1), AnchorView::Unc(s2, h2)) => {
                        lemma_case_eq_sym(s1, s2);
                        lemma_case_eq_sym(h1, h2);
                    },
                    _ => {},
                }
            }
            assert(phys.comps =~= phys.comps.take(n as int) + rest);
            assert(comps_case_eq(result.comps, phys.comps)) by {
                assert forall|i: int| 0 <= i < result.comps.len() implies eq_ignore_ascii_case(
                    #[trigger] result.comps[i],
                    phys.comps[i],
                ) by {
                    if i < n {
                        assert(result.comps[i] == r.comps[i]);
                        assert(component_eq_spec(phys.comps[i], r.comps[i], w));
                        if w {
                            lemma_case_eq_sym(phys.comps[i], r.comps[i]);
                        } else {
                            lemma_case_eq_refl(r.comps[i]);
                        }
                    } else {
                        assert(result.comps[i] == rest[i - n]);
                        assert(phys.comps[i] == rest[i - n]);
                        lemma_case_eq_refl(rest[i - n]);
                    }
                }
            }
            lemma_render_case_eq(result, phys);
        }
    } else {
        lemma_case_eq_refl(p);
    }
}


/// A `/`-join of plain components begins like a drive only when its first component does.
proof fn lemma_join_drive_like(cs: Seq<Seq<char>>)
    requires
        cs.len() >= 1,
        all_plain(cs),
        !drive_like(cs[0]),
    ensures
        !drive_like(join_slash(cs)),
{
    lemma_join_front(cs);
    let j = join_slash(cs);
    let f = cs[0];
    if f.len() >= 2 {
        assert(j.take(f.len() as int)[0] == f[0]);
        assert(j.take(f.len() as int)[1] == f[1]);
    } else if cs.len() >= 2 {
        assert(j[f.len() as int] == '/');
    }
}

/// An absolute path mapped to its logical form and back comes back as itself, up to ASCII case
/// (its lexical normal form, when it is not written normally), when the root and the invocation
/// directory are absolute at a Unix root, a drive root or a UNC share, the path is absolute in
/// one of those ways and none of its components begins like a drive (`c:`). A path on another
/// drive or share than the root stays absolute both ways. In an unrooted context the path is
/// unchanged.
pub proof fn law_absolute_path_round_trips(pv: PathsView, x: Seq<char>)
    requires
        pv.root is Some <==> pv.cwd is Some,
        pv.root matches Some(root) ==> absolute_anchor(parse_spec(root)),
        pv.cwd matches Some(cwd) ==> absolute_anchor(parse_spec(cwd)),
        absolute_anchor(parse_spec(x)),
        forall|i: int|
            0 <= i < parse_spec(x).comps.len() ==> !drive_like(#[trigger] parse_spec(x).comps[i]),
    ensures
        pv.root is Some ==> eq_ignore_ascii_case(
            pv.physical_of(pv.logical_of(x)),
            render_spec(parse_spec(x)),
        ),
        render_spec(parse_spec(x)) == x ==> eq_ignore_ascii_case(
            pv.physical_of(pv.logical_of(x)),
            x,
        ),
{
    if let (Some(root), Some(cwd)) = (pv.root, pv.cwd) {
        let c = parse_spec(cwd);
        let pp = parse_spec(x);
        let r = parse_spec(root);
        lemma_parse_comps(cwd);
        lemma_parse_comps(x);
        lemma_parse_comps(root);
        assert(resolve_spec(c, pp) == pp);
        let abs = render_spec(pp);
        assert(abs == lexical_absolute_spec(x, cwd));
        let logical = logical_spec(root, cwd, x);
        assert(logical == pv.logical_of(x));
        assert(drive_like(logical) ==> logical == abs) by {
            if same_anchor_spec(pp, r) {
                let w = windows_semantics(pp.anchor);
                let n = common_prefix_len(pp.comps, r.comps, w);
                lemma_common_prefix_w(pp.comps, r.comps, w);
                let k = (r.comps.len() - n) as nat;
                let rest = pp.comps.skip(n as int);
                let cs = parents(k) + rest;
                let rel = relative_to_spec(pp, r);
                assert(rel.comps == cs);
                let l = render_spec(rel);
                assert(l == join_slash(cs));
                if cs.len() == 0 {
                    assert(cs =~= Seq::<Seq<char>>::empty());
                    assert(logical == seq!['.']);
                } else {
                    assert forall|i: int| 0 <= i < cs.len() implies plain_comp(#[trigger] cs[i]) by {
                        if i >= k {
                            assert(cs[i] == rest[i - k]);
                            assert(rest[i - k] == pp.comps[i - k + n]);
                            assert(named_comp(pp.comps[i - k + n]));
                        }
                    }
                    if k > 0 {
                        assert(cs[0] == seq!['.', '.']);
                    } else {
                        assert(cs[0] == pp.comps[n as int]);
                    }
                    lemma_join_drive_like(cs);
                    lemma_join_front(cs);
                    assert(l.len() > 0) by {
                        assert(plain_comp(cs[0]));
                    }
                    assert(logical == l);
                }
            }
        }
        law_logical_then_physical_up_to_case(pv, x);
    }
}

} // verus!
