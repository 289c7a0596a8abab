//! Laws of the path algebra in `path`.
use vstd::prelude::*;
use crate::path::{
    clean, clean_comps, clean_from, clean_step, components, cur, dir_components, is_absolute,
    is_child, is_prefix, join_comps, keep, parent, relativize, resolution_components, resolve, root,
    scan, segments, truncated,
};

verus! {

/// An absolute path that cleaning leaves unchanged resolves to itself,
/// whatever the base.
pub proof fn lemma_resolve_clean_absolute(p: Seq<char>, base: Seq<char>)
    requires
        is_absolute(p),
        clean(p) == p,
    ensures
        resolve(p, base) == p,
{
}

/// Cleaning `a + b` from `acc` is cleaning `b` from what cleaning `a` left.
pub proof fn lemma_clean_from_append(acc: Seq<Seq<char>>, a: Seq<Seq<char>>, b: Seq<Seq<char>>)
    ensures
        clean_from(acc, a + b) == clean_from(clean_from(acc, a), b),
    decreases b.len(),
{
    if b.len() == 0 {
        assert(a + b =~= a);
    } else {
        lemma_clean_from_append(acc, a, b.drop_last());
        assert((a + b).drop_last() =~= a + b.drop_last());
        assert((a + b).last() == b.last());
    }
}

/// A parent step met while the accumulator is still empty is dropped: it
/// neither fails nor leaves a trace, so cleaning `".."` followed by `cs` is
/// cleaning `cs`.
pub proof fn lemma_parent_on_empty_is_noop(cs: Seq<Seq<char>>)
    ensures
        clean_comps(seq![parent()] + cs) == clean_comps(cs),
{
    lemma_clean_from_append(seq![], seq![parent()], cs);
    let one = seq![parent()];
    assert(one.drop_last() =~= Seq::<Seq<char>>::empty());
    assert(one.last() == parent());
    assert(clean_from(seq![], one.drop_last()) == Seq::<Seq<char>>::empty());
    assert(clean_from(seq![], seq![parent()]) =~= Seq::<Seq<char>>::empty());
}

/// Against a file at the top of a relative tree (whose directory has no
/// components), a reference that starts with a parent step resolves as if
/// that step were not there: it cannot climb above the empty accumulator.
pub proof fn lemma_leading_parent_at_top_level(path: Seq<char>, base: Seq<char>)
    requires
        !is_absolute(path),
        dir_components(base).len() == 0,
        components(path).len() > 0,
        components(path)[0] == parent(),
    ensures
        resolve(path, base) == join_comps(clean_comps(components(path).skip(1))),
{
    let cs = components(path);
    assert(resolution_components(path, base) =~= seq![parent()] + cs.skip(1));
    lemma_parent_on_empty_is_noop(cs.skip(1));
}

/// `c` holds no separator.
pub open spec fn no_slash(c: Seq<char>) -> bool {
    forall|i: int| 0 <= i < c.len() ==> #[trigger] c[i] != '/'
}

/// `c` can stand as a component after the first: non-empty, no separator,
/// not `"."`. (A parent step `".."` is such a component.)
pub open spec fn is_name(c: Seq<char>) -> bool {
    c.len() > 0 && c != cur() && no_slash(c)
}

/// The shape of what `components` yields: a root or current-directory marker
/// may lead, every other component is a name.
pub open spec fn component_shape(cs: Seq<Seq<char>>) -> bool {
    forall|k: int|
        0 <= k < cs.len() ==> (k == 0 && (cs[k] == root() || cs[k] == cur())) || is_name(
            #[trigger] cs[k],
        )
}

/// The shape of a cleaned path: a root may lead, every other component is a
/// name, and no parent step is left.
pub open spec fn clean_shape(cs: Seq<Seq<char>>) -> bool {
    forall|k: int|
        0 <= k < cs.len() ==> ((k == 0 && cs[k] == root()) || is_name(#[trigger] cs[k])) && cs[k]
            != parent()
}

/// A separator-free tail only extends the piece in progress.
proof fn lemma_scan_append(s: Seq<char>, t: Seq<char>)
    requires
        no_slash(t),
    ensures
        scan(s + t) == (scan(s).0, scan(s).1 + t),
    decreases t.len(),
{
    if t.len() == 0 {
        assert(s + t =~= s);
        assert(scan(s).1 + t =~= scan(s).1);
    } else {
        let u = t.drop_last();
        assert(no_slash(u)) by {
            assert forall|i: int| 0 <= i < u.len() implies #[trigger] u[i] != '/' by {
                assert(u[i] == t[i]);
            }
        }
        lemma_scan_append(s, u);
        assert((s + t).drop_last() =~= s + u);
        assert((s + t).last() == t.last());
        assert(t[t.len() - 1] != '/');
        assert((scan(s).1 + u).push(t.last()) =~= scan(s).1 + t);
    }
}

/// No piece of a split holds a separator.
proof fn lemma_scan_no_slash(s: Seq<char>)
    ensures
        forall|k: int| 0 <= k < scan(s).0.len() ==> no_slash(#[trigger] scan(s).0[k]),
        no_slash(scan(s).1),
    decreases s.len(),
{
    if s.len() > 0 {
        lemma_scan_no_slash(s.drop_last());
        let (done, piece) = scan(s.drop_last());
        if s.last() != '/' {
            assert forall|i: int| 0 <= i < piece.push(s.last()).len() implies #[trigger] piece.push(
                s.last(),
            )[i] != '/' by {
                if i < piece.len() {
                    assert(piece.push(s.last())[i] == piece[i]);
                }
            }
        } else {
            assert forall|k: int| 0 <= k < done.push(piece).len() implies no_slash(
                #[trigger] done.push(piece)[k],
            ) by {
                if k < done.len() {
                    assert(done.push(piece)[k] == done[k]);
                }
            }
            assert(no_slash(Seq::<char>::empty()));
        }
    }
}

/// What `keep` retains are names, where the pieces hold no separator.
proof fn lemma_keep_names(segs: Seq<Seq<char>>)
    requires
        forall|k: int| 0 <= k < segs.len() ==> no_slash(#[trigger] segs[k]),
    ensures
        forall|k: int| 0 <= k < keep(segs).len() ==> is_name(#[trigger] keep(segs)[k]),
    decreases segs.len(),
{
    if segs.len() > 0 {
        let init = segs.drop_last();
        assert forall|k: int| 0 <= k < init.len() implies no_slash(#[trigger] init[k]) by {
            assert(init[k] == segs[k]);
        }
        lemma_keep_names(init);
        let x = segs.last();
        assert(no_slash(segs[segs.len() - 1]));
        if !(x.len() == 0 || x == cur()) {
            let kept = keep(init);
            assert forall|k: int| 0 <= k < kept.push(x).len() implies is_name(
                #[trigger] kept.push(x)[k],
            ) by {
                if k < kept.len() {
                    assert(kept.push(x)[k] == kept[k]);
                }
            }
        }
    }
}

/// `components` yields a leading root or current-directory marker, then names.
pub proof fn lemma_components_shape(s: Seq<char>)
    ensures
        component_shape(components(s)),
        is_absolute(s) ==> components(s).len() > 0 && components(s)[0] == root(),
{
    lemma_scan_no_slash(s);
    let segs = segments(s);
    let (done, piece) = scan(s);
    assert forall|k: int| 0 <= k < segs.len() implies no_slash(#[trigger] segs[k]) by {
        if k < done.len() {
            assert(segs[k] == done[k]);
        }
    }
    lemma_keep_names(segs);
    let cs = components(s);
    let kept = keep(segs);
    let head_len = cs.len() - kept.len();
    assert(head_len <= 1);
    assert forall|k: int| 0 <= k < cs.len() implies (k == 0 && (cs[k] == root() || cs[k] == cur()))
        || is_name(#[trigger] cs[k]) by {
        if k >= head_len {
            assert(cs[k] == kept[k - head_len]);
        }
    }
}

/// Cleaning a sequence of the shape of `components` leaves a cleaned shape.
proof fn lemma_clean_shape(cs: Seq<Seq<char>>)
    requires
        component_shape(cs),
    ensures
        clean_shape(clean_comps(cs)),
    decreases cs.len(),
{
    if cs.len() > 0 {
        let init = cs.drop_last();
        assert(component_shape(init)) by {
            assert forall|k: int| 0 <= k < init.len() implies (k == 0 && (init[k] == root()
                || init[k] == cur())) || is_name(#[trigger] init[k]) by {
                assert(init[k] == cs[k]);
            }
        }
        lemma_clean_shape(init);
        let acc = clean_comps(init);
        let c = cs.last();
        assert(clean_comps(cs) == clean_step(acc, c));
        assert(c == cs[cs.len() - 1]);
        if c == parent() {
            if acc.len() > 0 && acc.last() != root() {
                let d = acc.drop_last();
                assert forall|k: int| 0 <= k < d.len() implies ((k == 0 && d[k] == root()) || is_name(
                    #[trigger] d[k],
                )) && d[k] != parent() by {
                    assert(d[k] == acc[k]);
                }
            }
        } else if c != cur() {
            if c == root() {
                assert(!is_name(root())) by {
                    assert(root()[0] == '/');
                }
                assert(cs.len() == 1);
                assert(init.len() == 0);
                assert(acc == Seq::<Seq<char>>::empty());
            }
            let a = acc.push(c);
            assert forall|k: int| 0 <= k < a.len() implies ((k == 0 && a[k] == root()) || is_name(
                #[trigger] a[k],
            )) && a[k] != parent() by {
                if k < acc.len() {
                    assert(a[k] == acc[k]);
                }
            }
        }
    }
}

/// A root may lead, every other component is a name.
pub open spec fn join_shape(w: Seq<Seq<char>>) -> bool {
    forall|k: int| 0 <= k < w.len() ==> (k == 0 && w[k] == root()) || is_name(#[trigger] w[k])
}

/// How the smallest inputs split.
proof fn lemma_small_splits()
    ensures
        scan(seq!['/']) == (seq![Seq::<char>::empty()], Seq::<char>::empty()),
        keep(Seq::<Seq<char>>::empty()) == Seq::<Seq<char>>::empty(),
        keep(seq![Seq::<char>::empty()]) == Seq::<Seq<char>>::empty(),
{
    let e = Seq::<char>::empty();
    let slash = seq!['/'];
    assert(slash.drop_last() =~= e);
    assert(slash.last() == '/');
    assert(scan(e) == (Seq::<Seq<char>>::empty(), e));
    assert(Seq::<Seq<char>>::empty().push(e) =~= seq![e]);
    assert(seq![e].drop_last() =~= Seq::<Seq<char>>::empty());
    assert(seq![e].last() == e);
}

/// Splitting the path that a sequence of a cleaned shape builds gives the
/// sequence back.
pub proof fn lemma_components_of_join(w: Seq<Seq<char>>)
    requires
        join_shape(w),
    ensures
        components(join_comps(w)) == w,
        w.len() > 0 ==> join_comps(w).len() > 0,
        w.len() > 0 && w.last() != root() ==> join_comps(w).last() != '/',
    decreases w.len(),
{
    lemma_small_splits();
    if w.len() == 0 {
        let e = Seq::<char>::empty();
        assert(scan(e) == (Seq::<Seq<char>>::empty(), e));
        assert(segments(e) =~= seq![e]);
        assert(keep(seq![e]).len() == 0) by {
            assert(seq![e].drop_last() =~= Seq::<Seq<char>>::empty());
            assert(keep(Seq::<Seq<char>>::empty()) == Seq::<Seq<char>>::empty());
            assert(seq![e].last() == e);
        }
        assert(components(e) =~= w);
    } else {
        let init = w.drop_last();
        let c = w.last();
        assert(c == w[w.len() - 1]);
        assert(join_shape(init)) by {
            assert forall|k: int| 0 <= k < init.len() implies (k == 0 && init[k] == root()) || is_name(
                #[trigger] init[k],
            ) by {
                assert(init[k] == w[k]);
            }
        }
        lemma_components_of_join(init);
        let p = join_comps(init);
        let e = Seq::<char>::empty();
        let slash = seq!['/'];
        if p.len() == 0 {
            assert(init.len() == 0);
            assert(join_comps(w) == c);
            if c == root() {
                assert(slash.drop_last() =~= e);
                assert(scan(slash) == (seq![e], e));
                assert(segments(slash) =~= seq![e, e]);
                let segs = seq![e, e];
                assert(segs.drop_last() =~= seq![e]);
                assert(seq![e].drop_last() =~= Seq::<Seq<char>>::empty());
                assert(keep(segs) =~= Seq::<Seq<char>>::empty());
                assert(components(slash) =~= w);
            } else {
                assert(is_name(c));
                lemma_scan_append(e, c);
                assert(e + c =~= c);
                assert(segments(c) =~= seq![c]);
                assert(seq![c].drop_last() =~= Seq::<Seq<char>>::empty());
                assert(keep(Seq::<Seq<char>>::empty()) == Seq::<Seq<char>>::empty());
                assert(seq![c].last() == c);
                assert(c != cur());
                assert(keep(seq![c]) =~= seq![c]);
                assert(c[0] != '/');
                assert(components(c) =~= w);
            }
        } else if p.last() == '/' {
            assert(init.last() == root());
            assert(init.len() == 1) by {
                if init.len() > 1 {
                    assert(is_name(init[init.len() - 1]));
                    assert(init[init.len() - 1][0] != '/');
                }
            }
            assert(init =~= seq![root()]);
            assert(init.drop_last() =~= Seq::<Seq<char>>::empty());
            assert(join_comps(Seq::<Seq<char>>::empty()) == e);
            assert(p =~= slash);
            assert(is_name(c));
            let s = slash + c;
            assert(join_comps(w) == s);
            assert(slash.drop_last() =~= e);
            assert(scan(slash) == (seq![e], e));
            lemma_scan_append(slash, c);
            assert(e + c =~= c);
            let segs = seq![e, c];
            assert(segments(s) =~= segs);
            assert(segs.drop_last() =~= seq![e]);
            assert(seq![e].drop_last() =~= Seq::<Seq<char>>::empty());
            assert(keep(seq![e]) =~= Seq::<Seq<char>>::empty());
            assert(keep(segs) =~= seq![c]);
            assert(s[0] == '/');
            assert(components(s) =~= w);
            assert(s.last() == c.last());
        } else {
            assert(is_name(c)) by {
                assert(w.len() > 1);
            }
            let q = p.push('/');
            let s = p + slash + c;
            assert(p + slash =~= q);
            assert(join_comps(w) == s);
            assert(q.drop_last() =~= p);
            assert(scan(q) == (scan(p).0.push(scan(p).1), e));
            lemma_scan_append(q, c);
            assert(e + c =~= c);
            assert(q + c =~= s);
            let sp = segments(p);
            assert(segments(s) =~= sp.push(c));
            assert(sp.push(c).drop_last() =~= sp);
            assert(keep(sp.push(c)) == keep(sp).push(c));
            assert(sp.push(c)[0] == sp[0]);
            assert(s[0] == p[0]);
            assert(components(s) =~= components(p).push(c));
            assert(s.last() == c.last());
        }
    }
}

/// Cleaning a sequence of a cleaned shape changes nothing.
proof fn lemma_clean_of_clean_shape(w: Seq<Seq<char>>)
    requires
        clean_shape(w),
    ensures
        clean_comps(w) == w,
    decreases w.len(),
{
    if w.len() > 0 {
        let init = w.drop_last();
        assert(clean_shape(init)) by {
            assert forall|k: int| 0 <= k < init.len() implies ((k == 0 && init[k] == root())
                || is_name(#[trigger] init[k])) && init[k] != parent() by {
                assert(init[k] == w[k]);
            }
        }
        lemma_clean_of_clean_shape(init);
        let c = w.last();
        assert(c == w[w.len() - 1]);
        assert(c != cur()) by {
            if w.len() - 1 == 0 && c == root() {
                assert(root() != cur()) by {
                    assert(root()[0] != cur()[0]);
                }
            }
        }
        assert(init.push(c) =~= w);
    }
}

/// Cleaning is idempotent: the cleaned form of a cleaned path is itself.
pub proof fn lemma_clean_idempotent(p: Seq<char>)
    ensures
        clean(clean(p)) == clean(p),
{
    lemma_components_shape(p);
    let w = clean_comps(components(p));
    lemma_clean_shape(components(p));
    assert(join_shape(w));
    lemma_components_of_join(w);
    lemma_clean_of_clean_shape(w);
}

/// Made relative to an absolute working directory `cwd`, a path that does not
/// lie below it comes back unchanged; the result has fewer components than
/// `file_path` exactly when `file_path` lies below `cwd`.
pub proof fn lemma_relativize_shortens_exactly_below(file_path: Seq<char>, cwd: Seq<char>)
    requires
        is_absolute(cwd),
    ensures
        !is_child(cwd, file_path) ==> relativize(file_path, Some(cwd)) == file_path,
        is_child(cwd, file_path) <==> components(relativize(file_path, Some(cwd))).len()
            < components(file_path).len(),
{
    if is_child(cwd, file_path) {
        let pc = components(cwd);
        let fc = components(file_path);
        lemma_components_shape(cwd);
        lemma_components_shape(file_path);
        assert(is_prefix(pc, fc));
        let rest = fc.subrange(pc.len() as int, fc.len() as int);
        assert(truncated(file_path, Some(cwd)) == Some(join_comps(rest)));
        assert(join_shape(rest)) by {
            assert forall|k: int| 0 <= k < rest.len() implies (k == 0 && rest[k] == root()) || is_name(
                #[trigger] rest[k],
            ) by {
                assert(rest[k] == fc[k + pc.len()]);
            }
        }
        lemma_components_of_join(rest);
    }
}

} // verus!
