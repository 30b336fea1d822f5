//! Properties of the library as a whole.

use vstd::prelude::*;
use crate::text::{split_on, join, starts_with, lemma_split_nonempty};
use crate::paths::{
    Comp, components, body_comps, seg_comp, has_root, leading_cur, normalize, render, is_prefix,
};
use crate::editor::{EditorView, resolve_spec, parent_spec, canonical, inside, joined};
use crate::args::{ArgModel, arg_str};
use crate::tools::{
    JobView, StepView, OutcomeView, dispatch_spec, resume_spec, search_on, open_spec, write_spec,
    create_spec, find_file_spec, search_dir_spec, search_file_spec, filemap_spec, edit_spec,
    insert_spec, Next, answer_text, err, dispatch_next, resume_next, search_next, step_of,
};

verus! {

// ---------------------------------------------------------------------------
// Path text and components
// ---------------------------------------------------------------------------

/// A name that stands as a normal component: not empty, not `.` or `..`, no separator.
pub open spec fn valid_name(x: Seq<char>) -> bool {
    x.len() > 0 && x != seq!['.'] && x != seq!['.', '.'] && !x.contains('/')
}

/// A component sequence as `components` produces it: normal components have
/// valid names and the root can only come first.
pub open spec fn well_parsed(cs: Seq<Comp>) -> bool {
    forall|i: int|
        0 <= i < cs.len() ==> (#[trigger] cs[i] is Normal ==> valid_name(cs[i]->Normal_0)) && (
        cs[i] is Root ==> i == 0)
}

/// Normal form: an optional root, then normal components with valid names.
pub open spec fn normal_form(cs: Seq<Comp>) -> bool {
    forall|i: int|
        0 <= i < cs.len() ==> (#[trigger] cs[i] is Normal && valid_name(cs[i]->Normal_0)) || (i
            == 0 && cs[i] is Root)
}

proof fn lemma_split_no_sep(s: Seq<char>, sep: char)
    ensures
        forall|k: int| 0 <= k < split_on(s, sep).len() ==> !(#[trigger] split_on(s, sep)[k]).contains(sep),
    decreases s.len(),
{
    if s.len() > 0 {
        lemma_split_no_sep(s.drop_last(), sep);
        lemma_split_nonempty(s.drop_last(), sep);
        let p = split_on(s.drop_last(), sep);
        if s.last() != sep {
            assert forall|k: int| 0 <= k < split_on(s, sep).len() implies !(#[trigger] split_on(
                s,
                sep,
            )[k]).contains(sep) by {
                if k == p.len() - 1 {
                    let x = p.last().push(s.last());
                    if x.contains(sep) {
                        let j = choose|j: int| 0 <= j < x.len() && x[j] == sep;
                        assert(p.last()[j] == sep);
                    }
                }
            }
        }
    }
}

proof fn lemma_body_parsed(segs: Seq<Seq<char>>)
    requires
        forall|k: int| 0 <= k < segs.len() ==> !(#[trigger] segs[k]).contains('/'),
    ensures
        forall|i: int| 0 <= i < body_comps(segs).len() ==> {
            let c = #[trigger] body_comps(segs)[i];
            (c is Normal ==> valid_name(c->Normal_0)) && !(c is Root) && !(c is Cur)
        },
    decreases segs.len(),
{
    if segs.len() > 0 {
        lemma_body_parsed(segs.drop_last());
        assert(segs.last() == segs[segs.len() - 1]);
    }
}

/// Every component sequence that `components` produces is well parsed, and has no
/// root when the text does not begin with `/`.
pub proof fn lemma_components_parsed(s: Seq<char>)
    ensures
        well_parsed(components(s)),
        !has_root(s) ==> forall|i: int| 0 <= i < components(s).len() ==> !(#[trigger] components(s)[i] is Root),
{
    lemma_split_no_sep(s, '/');
    lemma_body_parsed(split_on(s, '/'));
    let head = if has_root(s) {
        seq![Comp::Root]
    } else if leading_cur(s) {
        seq![Comp::Cur]
    } else {
        Seq::<Comp>::empty()
    };
    let b = body_comps(split_on(s, '/'));
    assert forall|i: int| 0 <= i < components(s).len() implies {
        let c = #[trigger] components(s)[i];
        (c is Normal ==> valid_name(c->Normal_0)) && (c is Root ==> i == 0) && (!has_root(s) ==> !(c is Root))
    } by {
        if i >= head.len() {
            assert(components(s)[i] == b[i - head.len()]);
        }
    }
}

proof fn lemma_joined_parsed(w: Seq<char>, p: Seq<char>)
    ensures
        well_parsed(joined(w, p)),
{
    lemma_components_parsed(w);
    lemma_components_parsed(p);
    if !has_root(p) {
        let a = components(w);
        let b = components(p);
        assert forall|i: int| 0 <= i < (a + b).len() implies (#[trigger] (a + b)[i] is Normal ==> valid_name(
            (a + b)[i]->Normal_0,
        )) && ((a + b)[i] is Root ==> i == 0) by {
            if i >= a.len() {
                assert((a + b)[i] == b[i - a.len()]);
            } else {
                assert((a + b)[i] == a[i]);
            }
        }
    }
}

/// Normalizing a well-parsed sequence gives normal form.
pub proof fn lemma_normalize_normal(cs: Seq<Comp>)
    requires
        well_parsed(cs),
    ensures
        normal_form(normalize(cs)),
    decreases cs.len(),
{
    if cs.len() > 0 {
        let dl = cs.drop_last();
        assert forall|i: int| 0 <= i < dl.len() implies (#[trigger] dl[i] is Normal ==> valid_name(
            dl[i]->Normal_0,
        )) && (dl[i] is Root ==> i == 0) by {
            assert(dl[i] == cs[i]);
        }
        lemma_normalize_normal(dl);
        let acc = normalize(dl);
        assert(cs.last() == cs[cs.len() - 1]);
        match cs.last() {
            Comp::Root => {
                assert(normalize(cs) =~= seq![Comp::Root]);
            },
            Comp::Cur => {},
            Comp::Parent => {
                if acc.len() > 0 && acc.last() is Normal {
                    assert forall|i: int| 0 <= i < acc.drop_last().len() implies (
                    #[trigger] acc.drop_last()[i] is Normal && valid_name(
                        acc.drop_last()[i]->Normal_0,
                    )) || (i == 0 && acc.drop_last()[i] is Root) by {
                        assert(acc.drop_last()[i] == acc[i]);
                    }
                }
            },
            Comp::Normal(x) => {
                assert forall|i: int| 0 <= i < acc.push(Comp::Normal(x)).len() implies (
                #[trigger] acc.push(Comp::Normal(x))[i] is Normal && valid_name(
                    acc.push(Comp::Normal(x))[i]->Normal_0,
                )) || (i == 0 && acc.push(Comp::Normal(x))[i] is Root) by {
                    if i < acc.len() {
                        assert(acc.push(Comp::Normal(x))[i] == acc[i]);
                    }
                }
            },
        }
    }
}

proof fn lemma_split_plain(s: Seq<char>, sep: char)
    requires
        !s.contains(sep),
    ensures
        split_on(s, sep) == seq![s],
    decreases s.len(),
{
    if s.len() > 0 {
        assert(!s.drop_last().contains(sep)) by {
            if s.drop_last().contains(sep) {
                let j = choose|j: int| 0 <= j < s.drop_last().len() && s.drop_last()[j] == sep;
                assert(s[j] == sep);
            }
        }
        lemma_split_plain(s.drop_last(), sep);
        assert(s.last() != sep) by {
            assert(s[s.len() - 1] == s.last());
        }
        assert(s.drop_last().push(s.last()) =~= s);
        let p = split_on(s.drop_last(), sep);
        assert(p.len() == 1);
        assert(p.last() == s.drop_last());
        assert(split_on(s, sep) == p.update(p.len() - 1, p.last().push(s.last())));
        assert(seq![s.drop_last()].update(0, s.drop_last().push(s.last())) =~= seq![s]);
    } else {
        assert(s =~= Seq::<char>::empty());
    }
}

proof fn lemma_split_concat(a: Seq<char>, b: Seq<char>, sep: char)
    ensures
        split_on(a.push(sep) + b, sep) == split_on(a, sep) + split_on(b, sep),
    decreases b.len(),
{
    lemma_split_nonempty(a, sep);
    if b.len() == 0 {
        assert(a.push(sep) + b =~= a.push(sep));
        assert(a.push(sep).drop_last() =~= a);
    } else {
        lemma_split_concat(a, b.drop_last(), sep);
        lemma_split_nonempty(b.drop_last(), sep);
        let x = a.push(sep) + b;
        assert(x.drop_last() =~= a.push(sep) + b.drop_last());
        assert(x.last() == b.last());
        let pa = split_on(a, sep);
        let pb = split_on(b.drop_last(), sep);
        if b.last() == sep {
            assert((pa + pb).push(Seq::<char>::empty()) =~= pa + pb.push(Seq::<char>::empty()));
        } else {
            assert((pa + pb).update((pa + pb).len() - 1, (pa + pb).last().push(b.last())) =~= pa
                + pb.update(pb.len() - 1, pb.last().push(b.last())));
        }
    }
}

proof fn lemma_split_join(ns: Seq<Seq<char>>)
    requires
        ns.len() >= 1,
        forall|k: int| 0 <= k < ns.len() ==> !(#[trigger] ns[k]).contains('/'),
    ensures
        split_on(join(ns, seq!['/']), '/') == ns,
    decreases ns.len(),
{
    if ns.len() == 1 {
        lemma_split_plain(ns[0], '/');
        assert(seq![ns[0]] =~= ns);
    } else {
        let dl = ns.drop_last();
        assert forall|k: int| 0 <= k < dl.len() implies !(#[trigger] dl[k]).contains('/') by {
            assert(dl[k] == ns[k]);
        }
        lemma_split_join(dl);
        assert(join(dl, seq!['/']) + seq!['/'] + ns.last() =~= join(dl, seq!['/']).push('/')
            + ns.last());
        lemma_split_concat(join(dl, seq!['/']), ns.last(), '/');
        assert(!ns.last().contains('/')) by {
            assert(ns.last() == ns[ns.len() - 1]);
        }
        lemma_split_plain(ns.last(), '/');
        assert(dl + seq![ns.last()] =~= ns);
    }
}

proof fn lemma_join_first(ns: Seq<Seq<char>>)
    requires
        ns.len() >= 1,
    ensures
        join(ns, seq!['/']).len() >= ns[0].len(),
        join(ns, seq!['/']).take(ns[0].len() as int) == ns[0],
        ns.len() > 1 ==> join(ns, seq!['/']).len() > ns[0].len() && join(ns, seq!['/'])[ns[0].len() as int] == '/',
    decreases ns.len(),
{
    if ns.len() == 1 {
        assert(join(ns, seq!['/']).take(ns[0].len() as int) =~= ns[0]);
    } else {
        let dl = ns.drop_last();
        lemma_join_first(dl);
        let j = join(dl, seq!['/']);
        let full = j + seq!['/'] + ns.last();
        assert(full.take(ns[0].len() as int) =~= j.take(ns[0].len() as int));
        if dl.len() == 1 {
            assert(full[ns[0].len() as int] == '/');
        } else {
            assert(full[ns[0].len() as int] == j[ns[0].len() as int]);
        }
    }
}

proof fn lemma_body_names(segs: Seq<Seq<char>>)
    requires
        forall|k: int| 0 <= k < segs.len() ==> valid_name(#[trigger] segs[k]),
    ensures
        body_comps(segs) == segs.map_values(|x: Seq<char>| Comp::Normal(x)),
    decreases segs.len(),
{
    if segs.len() > 0 {
        let dl = segs.drop_last();
        assert forall|k: int| 0 <= k < dl.len() implies valid_name(#[trigger] dl[k]) by {
            assert(dl[k] == segs[k]);
        }
        lemma_body_names(dl);
        assert(valid_name(segs.last())) by {
            assert(segs.last() == segs[segs.len() - 1]);
        }
        assert(seg_comp(segs.last()) =~= seq![Comp::Normal(segs.last())]);
        assert(dl.map_values(|x: Seq<char>| Comp::Normal(x)) + seq![Comp::Normal(segs.last())]
            =~= segs.map_values(|x: Seq<char>| Comp::Normal(x)));
    }
}

proof fn lemma_body_one_empty()
    ensures
        body_comps(seq![Seq::<char>::empty()]) == Seq::<Comp>::empty(),
{
    let x = seq![Seq::<char>::empty()];
    assert(x.drop_last() =~= Seq::<Seq<char>>::empty());
    assert(x.last() == Seq::<char>::empty());
    assert(body_comps(Seq::<Seq<char>>::empty()) == Seq::<Comp>::empty());
    assert(seg_comp(Seq::<char>::empty()) =~= Seq::<Comp>::empty());
    assert(body_comps(x) =~= body_comps(x.drop_last()) + seg_comp(x.last()));
}

proof fn lemma_body_concat(a: Seq<Seq<char>>, b: Seq<Seq<char>>)
    ensures
        body_comps(a + b) == body_comps(a) + body_comps(b),
    decreases b.len(),
{
    if b.len() == 0 {
        assert(a + b =~= a);
        assert(body_comps(a) + body_comps(b) =~= body_comps(a));
    } else {
        lemma_body_concat(a, b.drop_last());
        assert((a + b).drop_last() =~= a + b.drop_last());
        assert((a + b).last() == b.last());
        assert(body_comps(a) + body_comps(b.drop_last()) + seg_comp(b.last()) =~= body_comps(a)
            + (body_comps(b.drop_last()) + seg_comp(b.last())));
    }
}

/// Reading back the text of a normal-form path gives the same components.
pub proof fn lemma_render_roundtrip(cs: Seq<Comp>)
    requires
        normal_form(cs),
    ensures
        components(render(cs)) == cs,
{
    let rooted = cs.len() > 0 && cs[0] is Root;
    let rest = if rooted {
        cs.drop_first()
    } else {
        cs
    };
    assert forall|i: int| 0 <= i < rest.len() implies #[trigger] rest[i] is Normal && valid_name(
        rest[i]->Normal_0,
    ) by {
        if rooted {
            assert(rest[i] == cs[i + 1]);
        } else {
            assert(rest[i] == cs[i]);
        }
    }
    let names = rest.map_values(|c: Comp| crate::paths::comp_text(c));
    assert forall|k: int| 0 <= k < names.len() implies valid_name(#[trigger] names[k]) by {
        assert(names[k] == rest[k]->Normal_0);
    }
    assert(names.map_values(|x: Seq<char>| Comp::Normal(x)) =~= rest) by {
        assert forall|k: int| 0 <= k < rest.len() implies names.map_values(
            |x: Seq<char>| Comp::Normal(x),
        )[k] == rest[k] by {
            assert(names[k] == rest[k]->Normal_0);
        }
    }
    let j = join(names, seq!['/']);
    if names.len() > 0 {
        lemma_split_join(names);
        lemma_body_names(names);
    } else {
        assert(j =~= Seq::<char>::empty());
        assert(split_on(j, '/') =~= seq![Seq::<char>::empty()]);
        lemma_body_one_empty();
    }
    if rooted {
        let t = seq!['/'] + j;
        assert(render(cs) == t);
        assert(has_root(t));
        assert(t =~= Seq::<char>::empty().push('/') + j);
        lemma_split_concat(Seq::<char>::empty(), j, '/');
        assert(split_on(Seq::<char>::empty(), '/') =~= seq![Seq::<char>::empty()]);
        lemma_body_concat(seq![Seq::<char>::empty()], split_on(j, '/'));
        lemma_body_one_empty();
        if names.len() == 0 {
            assert(split_on(j, '/') =~= seq![Seq::<char>::empty()]);
        }
        assert(seq![Comp::Root] + rest =~= cs);
        assert(components(t) =~= cs);
    } else {
        assert(render(cs) == j);
        if names.len() > 0 {
            lemma_join_first(names);
            let n0 = names[0];
            assert(j[0] == n0[0]) by {
                assert(j.take(n0.len() as int)[0] == n0[0]);
            }
            assert(!has_root(j)) by {
                if n0[0] == '/' {
                    assert(n0.contains('/'));
                }
            }
            assert(!leading_cur(j)) by {
                if j == seq!['.'] {
                    if names.len() > 1 {
                        assert(j.len() > n0.len());
                    } else {
                        assert(j.take(n0.len() as int) =~= j);
                    }
                }
                if starts_with(j, seq!['.', '/']) {
                    assert(j.take(2)[0] == '.' && j.take(2)[1] == '/');
                    if n0.len() >= 2 {
                        assert(j[1] == j.take(n0.len() as int)[1]);
                        assert(n0[1] == '/');
                        assert(n0.contains('/'));
                    } else {
                        assert(n0 =~= seq!['.']) by {
                            assert(n0[0] == j.take(n0.len() as int)[0]);
                        }
                    }
                }
            }
        } else {
            assert(!has_root(j));
            assert(!leading_cur(j)) by {
                assert(j.len() == 0);
                if starts_with(j, seq!['.', '/']) {
                    assert(j.len() >= 2);
                }
            }
        }
        assert(Seq::<Comp>::empty() + rest =~= cs);
        assert(components(j) =~= cs);
    }
}

// ---------------------------------------------------------------------------
// Normalizing path text
// ---------------------------------------------------------------------------

/// Normalizing a sequence already in normal form changes nothing.
pub proof fn lemma_normalize_idempotent(cs: Seq<Comp>)
    requires
        normal_form(cs),
    ensures
        normalize(cs) == cs,
    decreases cs.len(),
{
    if cs.len() > 0 {
        let dl = cs.drop_last();
        assert forall|i: int| 0 <= i < dl.len() implies (#[trigger] dl[i] is Normal && valid_name(
            dl[i]->Normal_0,
        )) || (i == 0 && dl[i] is Root) by {
            assert(dl[i] == cs[i]);
        }
        lemma_normalize_idempotent(dl);
        assert(cs.last() == cs[cs.len() - 1]);
        if cs.last() is Root {
            assert(cs.len() == 1);
            assert(cs =~= seq![Comp::Root]);
        } else {
            assert(dl.push(cs.last()) =~= cs);
        }
    }
}

/// Normalizing keeps a leading root and adds none.
proof fn lemma_normalize_root(cs: Seq<Comp>)
    requires
        well_parsed(cs),
    ensures
        (normalize(cs).len() > 0 && normalize(cs)[0] is Root) == (cs.len() > 0 && cs[0] is Root),
    decreases cs.len(),
{
    if cs.len() > 0 {
        let dl = cs.drop_last();
        assert forall|i: int| 0 <= i < dl.len() implies (#[trigger] dl[i] is Normal ==> valid_name(
            dl[i]->Normal_0,
        )) && (dl[i] is Root ==> i == 0) by {
            assert(dl[i] == cs[i]);
        }
        lemma_normalize_root(dl);
        let acc = normalize(dl);
        assert(cs.last() == cs[cs.len() - 1]);
        if dl.len() > 0 {
            assert(cs[0] == dl[0]);
        }
        match cs.last() {
            Comp::Root => {
                assert(cs.len() == 1);
            },
            Comp::Cur => {},
            Comp::Parent => {
                if acc.len() > 0 && acc.last() is Normal {
                    if acc.len() > 1 {
                        assert(acc.drop_last()[0] == acc[0]);
                    }
                }
            },
            Comp::Normal(x) => {
                if acc.len() > 0 {
                    assert(acc.push(Comp::Normal(x))[0] == acc[0]);
                }
            },
        }
    }
}

/// The path text begins at the root exactly when its first component is the root.
proof fn lemma_root_component(s: Seq<char>)
    ensures
        has_root(s) == (components(s).len() > 0 && components(s)[0] is Root),
{
    lemma_components_parsed(s);
    if has_root(s) {
        assert(components(s)[0] == Comp::Root);
    }
}

/// `normalize_path` gives a path with no `.` or `..` components, which begins
/// at the root exactly when the given path does, and which it leaves as it is.
pub proof fn law_normalized_paths(path: Seq<char>)
    ensures
        ({
            let r = render(normalize(components(path)));
            &&& components(r) == normalize(components(path))
            &&& forall|i: int|
                0 <= i < components(r).len() ==> !(#[trigger] components(r)[i] is Cur) && !(
                components(r)[i] is Parent)
            &&& has_root(r) == has_root(path)
            &&& render(normalize(components(r))) == r
        }),
{
    let cs = components(path);
    let n = normalize(cs);
    let r = render(n);
    lemma_components_parsed(path);
    lemma_normalize_normal(cs);
    lemma_render_roundtrip(n);
    lemma_normalize_idempotent(n);
    lemma_normalize_root(cs);
    lemma_root_component(path);
    lemma_root_component(r);
    assert forall|i: int| 0 <= i < components(r).len() implies !(#[trigger] components(r)[i] is Cur)
        && !(components(r)[i] is Parent) by {
        assert(components(r)[i] == n[i]);
    }
}

// ---------------------------------------------------------------------------
// The workspace guard
// ---------------------------------------------------------------------------

/// With access outside the workspace off, every path the editor resolves names a
/// location inside the workspace: the text it hands to the file system reads
/// back as exactly the checked components, and those begin with the
/// workspace's components.
pub proof fn law_resolved_paths_stay_inside(m: EditorView, path: Seq<char>)
    requires
        !m.allow_outside,
        resolve_spec(m, path) is Ok,
    ensures
        components(resolve_spec(m, path)->Ok_0) == canonical(m.workdir, path),
        is_prefix(components(m.workdir), components(resolve_spec(m, path)->Ok_0)),
{
    lemma_joined_parsed(m.workdir, path);
    lemma_normalize_normal(joined(m.workdir, path));
    lemma_render_roundtrip(canonical(m.workdir, path));
}


/// The path text `p` names a location inside the workspace `workdir`.
pub open spec fn within(workdir: Seq<char>, p: Seq<char>) -> bool {
    is_prefix(components(workdir), components(p))
}

/// Every path a pending call will hand to the file system lies inside the
/// workspace, except directories it creates, which are ancestors of its target.
pub open spec fn job_within(j: JobView, workdir: Seq<char>) -> bool {
    match j {
        JobView::Open { full, .. } => within(workdir, full),
        JobView::CreateDir { full, dir, .. } => within(workdir, full) && is_prefix(
            components(dir),
            components(full),
        ),
        JobView::CreateFile { full, .. } => within(workdir, full),
        JobView::WriteDir { full, dir, .. } => within(workdir, full) && is_prefix(
            components(dir),
            components(full),
        ),
        JobView::WriteCheck { full, .. } => within(workdir, full),
        JobView::WriteFile { full, .. } => within(workdir, full),
        JobView::FindFile { root, .. } => within(workdir, root),
        JobView::SearchList { root, .. } => within(workdir, root),
        JobView::SearchRead { root, .. } => within(workdir, root),
        JobView::SearchFile { full, .. } => within(workdir, full),
        JobView::Edit { full, .. } => within(workdir, full),
        JobView::Insert { full, .. } => within(workdir, full),
        JobView::Filemap { full, .. } => within(workdir, full),
    }
}

proof fn lemma_resolved(m: EditorView, path: Seq<char>)
    requires
        !m.allow_outside,
    ensures
        resolve_spec(m, path) matches Ok(full) ==> within(m.workdir, full) && (parent_spec(
            m,
            path,
        ) matches Some(d) ==> is_prefix(components(d), components(full))),
{
    if resolve_spec(m, path) is Ok {
        law_resolved_paths_stay_inside(m, path);
        let canon = canonical(m.workdir, path);
        lemma_joined_parsed(m.workdir, path);
        lemma_normalize_normal(joined(m.workdir, path));
        if canon.len() > 0 && canon.last() is Normal {
            let up = canon.drop_last();
            assert forall|i: int| 0 <= i < up.len() implies (#[trigger] up[i] is Normal
                && valid_name(up[i]->Normal_0)) || (i == 0 && up[i] is Root) by {
                assert(up[i] == canon[i]);
            }
            lemma_render_roundtrip(up);
            assert(canon.take(up.len() as int) =~= up);
        }
    }
}

proof fn lemma_resolved_arg(m: EditorView, a: Seq<(Seq<char>, ArgModel)>, key: Seq<char>)
    requires
        !m.allow_outside,
    ensures
        arg_str(a, key) matches Some(p) ==> (resolve_spec(m, p) matches Ok(full) ==> within(
            m.workdir,
            full,
        ) && (parent_spec(m, p) matches Some(d) ==> is_prefix(components(d), components(full)))),
{
    if arg_str(a, key) is Some {
        lemma_resolved(m, arg_str(a, key)->Some_0);
    }
}

proof fn lemma_workdir_within(w: Seq<char>)
    ensures
        within(w, w),
{
    assert(components(w).take(components(w).len() as int) =~= components(w));
}

/// With access outside the workspace off, a tool call never starts a file-system
/// operation outside the workspace (only the directories that `create` and
/// `write` make may lie above it, as ancestors of the file they write).
pub proof fn law_started_calls_stay_inside(
    m: EditorView,
    tool: Seq<char>,
    a: Seq<(Seq<char>, ArgModel)>,
)
    requires
        !m.allow_outside,
    ensures
        dispatch_spec(m, tool, a).1 matches StepView::Io(j) ==> job_within(j, m.workdir),
{
    reveal_strlit("open");
    reveal_strlit("goto");
    reveal_strlit("create");
    reveal_strlit("write");
    reveal_strlit("scroll_up");
    reveal_strlit("scroll_down");
    reveal_strlit("find_file");
    reveal_strlit("search_dir");
    reveal_strlit("search_file");
    reveal_strlit("edit");
    reveal_strlit("insert");
    reveal_strlit("submit");
    reveal_strlit("filemap");
    assert("open"@.len() == 4 && "goto"@.len() == 4 && "create"@.len() == 6 && "write"@.len() == 5
        && "scroll_up"@.len() == 9 && "scroll_down"@.len() == 11 && "find_file"@.len() == 9
        && "search_dir"@.len() == 10 && "search_file"@.len() == 11 && "edit"@.len() == 4
        && "insert"@.len() == 6 && "submit"@.len() == 6 && "filemap"@.len() == 7);
    assert("open"@[0] == 'o' && "goto"@[0] == 'g' && "edit"@[0] == 'e');
    assert("create"@[0] == 'c' && "insert"@[0] == 'i' && "submit"@[0] == 's');
    assert("scroll_up"@[1] == 'c' && "find_file"@[0] == 'f');
    assert("scroll_down"@[1] == 'c' && "search_file"@[1] == 'e');
    lemma_workdir_within(m.workdir);
    if tool == "open"@ {
        lemma_resolved_arg(m, a, "path"@);
        assert(dispatch_spec(m, tool, a) == open_spec(m, a));
    } else if tool == "write"@ {
        lemma_resolved_arg(m, a, "path"@);
        assert(dispatch_spec(m, tool, a) == write_spec(m, a));
    } else if tool == "create"@ {
        lemma_resolved_arg(m, a, "filename"@);
        assert(dispatch_spec(m, tool, a) == create_spec(m, a));
    } else if tool == "find_file"@ {
        lemma_resolved_arg(m, a, "dir"@);
        assert(dispatch_spec(m, tool, a) == find_file_spec(m, a));
    } else if tool == "search_dir"@ {
        lemma_resolved_arg(m, a, "dir"@);
        assert(dispatch_spec(m, tool, a) == search_dir_spec(m, a));
    } else if tool == "search_file"@ {
        lemma_resolved_arg(m, a, "file"@);
        assert(dispatch_spec(m, tool, a) == search_file_spec(m, a));
    } else if tool == "filemap"@ {
        lemma_resolved_arg(m, a, "file_path"@);
        assert(dispatch_spec(m, tool, a) == filemap_spec(m, a));
    } else if tool == "edit"@ {
        if m.current_file is Some {
            lemma_resolved(m, m.current_file->Some_0);
        }
        assert(dispatch_spec(m, tool, a) == edit_spec(m, a));
    } else if tool == "insert"@ {
        if m.current_file is Some {
            lemma_resolved(m, m.current_file->Some_0);
        }
        assert(dispatch_spec(m, tool, a) == insert_spec(m, a));
    } else {
        assert(!(dispatch_spec(m, tool, a).1 is Io));
    }
}

/// With access outside the workspace off, resuming a call that stays inside the
/// workspace gives a call that stays inside it.
pub proof fn law_resumed_calls_stay_inside(m: EditorView, j: JobView, o: OutcomeView)
    requires
        !m.allow_outside,
        job_within(j, m.workdir),
    ensures
        resume_spec(m, j, o).1 matches StepView::Io(j2) ==> job_within(j2, m.workdir),
{
}


// ---------------------------------------------------------------------------
// Relative paths in a normal-form workspace
// ---------------------------------------------------------------------------

proof fn lemma_normalize_extends(a: Seq<Comp>, b: Seq<Comp>)
    requires
        forall|i: int| 0 <= i < b.len() ==> !(#[trigger] b[i] is Root) && !(b[i] is Parent),
    ensures
        is_prefix(normalize(a), normalize(a + b)),
    decreases b.len(),
{
    if b.len() == 0 {
        assert(a + b =~= a);
        assert(normalize(a).take(normalize(a).len() as int) =~= normalize(a));
    } else {
        let dl = b.drop_last();
        assert forall|i: int| 0 <= i < dl.len() implies !(#[trigger] dl[i] is Root) && !(
        dl[i] is Parent) by {
            assert(dl[i] == b[i]);
        }
        lemma_normalize_extends(a, dl);
        assert((a + b).drop_last() =~= a + dl);
        assert((a + b).last() == b[b.len() - 1]);
        let acc = normalize(a + dl);
        match b[b.len() - 1] {
            Comp::Normal(x) => {
                assert(acc.push(Comp::Normal(x)).take(normalize(a).len() as int) =~= acc.take(
                    normalize(a).len() as int,
                ));
            },
            _ => {},
        }
    }
}

/// When the workspace is written in normal form, a relative path without `..`
/// is always accepted (whether or not outside access is allowed).
pub proof fn law_relative_paths_accepted(m: EditorView, path: Seq<char>)
    requires
        normalize(components(m.workdir)) == components(m.workdir),
        !has_root(path),
        forall|i: int| 0 <= i < components(path).len() ==> !(#[trigger] components(path)[i] is Parent),
    ensures
        resolve_spec(m, path) is Ok,
{
    lemma_components_parsed(path);
    lemma_normalize_extends(components(m.workdir), components(path));
}

// ---------------------------------------------------------------------------
// Scrolling
// ---------------------------------------------------------------------------

/// Scrolling down a full window and back up returns to the same place, when
/// there is a full window below.
pub proof fn law_scroll_down_then_up(m: EditorView, a: Seq<(Seq<char>, ArgModel)>)
    requires
        m.current_file is Some,
        m.window_start + 2 * crate::editor::WINDOW_SIZE <= m.lines.len(),
        m.lines.len() <= usize::MAX,
    ensures
        dispatch_spec(m, "scroll_down"@, a).0.window_start == m.window_start
            + crate::editor::WINDOW_SIZE,
        dispatch_spec(dispatch_spec(m, "scroll_down"@, a).0, "scroll_up"@, a).0 == m,
        crate::tools::scroll_up_spec(crate::tools::scroll_down_spec(m).0).0 == m,
{
    reveal_strlit("open");
    reveal_strlit("goto");
    reveal_strlit("create");
    reveal_strlit("write");
    reveal_strlit("scroll_up");
    reveal_strlit("scroll_down");
    assert("scroll_up"@.len() == 9 && "scroll_down"@.len() == 11 && "open"@.len() == 4
        && "goto"@.len() == 4 && "create"@.len() == 6 && "write"@.len() == 5);
    let m1 = dispatch_spec(m, "scroll_down"@, a).0;
    assert(m1 == crate::tools::scroll_down_spec(m).0);
    assert(dispatch_spec(m1, "scroll_up"@, a) == crate::tools::scroll_up_spec(m1));
}

// ---------------------------------------------------------------------------
// Inserting lines
// ---------------------------------------------------------------------------

/// Inserting lines at a position keeps the lines before it, puts the new lines
/// there, and shifts the rest behind them; without a position they go at the end.
pub proof fn law_insert_layout(ls: Seq<Seq<char>>, nl: Seq<Seq<char>>, line: Option<usize>)
    ensures
        ({
            let r = crate::tools::inserted(ls, nl, line);
            let pos: int = match line {
                Some(ln) => if ln <= ls.len() {
                    ln as int
                } else {
                    ls.len() as int
                },
                None => ls.len() as int,
            };
            &&& r.len() == ls.len() + nl.len()
            &&& forall|i: int| 0 <= i < pos ==> #[trigger] r[i] == ls[i]
            &&& forall|j: int| 0 <= j < nl.len() ==> #[trigger] r[pos + j] == nl[j]
            &&& forall|i: int| pos <= i < ls.len() ==> #[trigger] r[i + nl.len()] == ls[i]
        }),
{
}

// ---------------------------------------------------------------------------
// Wildcards
// ---------------------------------------------------------------------------

/// `*` alone matches every name.
pub proof fn law_star_matches_all(t: Seq<char>)
    ensures
        crate::glob::glob_spec(seq!['*'], t),
    decreases t.len(),
{
    let p = seq!['*'];
    assert(p.len() == 1 && p[0] == '*');
    assert(p.drop_first() =~= Seq::<char>::empty());
    if t.len() > 0 {
        law_star_matches_all(t.drop_first());
    } else {
        assert(crate::glob::glob_spec(p.drop_first(), t));
    }
}

/// A pattern without `*` and `?` matches exactly the name it spells.
pub proof fn law_plain_pattern_is_literal(p: Seq<char>, t: Seq<char>)
    requires
        !p.contains('*'),
        !p.contains('?'),
    ensures
        crate::glob::glob_spec(p, t) <==> p == t,
    decreases p.len(),
{
    if p.len() == 0 {
        if t.len() == 0 {
            assert(p =~= t);
        }
    } else {
        assert(p[0] != '*' && p[0] != '?') by {
            assert(p.contains(p[0]));
        }
        let q = p.drop_first();
        assert(!q.contains('*') && !q.contains('?')) by {
            if q.contains('*') {
                let j = choose|j: int| 0 <= j < q.len() && q[j] == '*';
                assert(p[j + 1] == '*');
            }
            if q.contains('?') {
                let j = choose|j: int| 0 <= j < q.len() && q[j] == '?';
                assert(p[j + 1] == '?');
            }
        }
        if t.len() > 0 {
            law_plain_pattern_is_literal(q, t.drop_first());
            if p == t {
                assert(q == t.drop_first());
            }
            if p[0] == t[0] && q == t.drop_first() {
                assert forall|i: int| 0 <= i < p.len() implies p[i] == t[i] by {
                    if i > 0 {
                        assert(p[i] == q[i - 1]);
                        assert(t[i] == t.drop_first()[i - 1]);
                    }
                }
                assert(p =~= t);
            }
        }
    }
}

// ---------------------------------------------------------------------------
// Errors and writes
// ---------------------------------------------------------------------------

/// A reply that begins with the error marker.
pub open spec fn is_error(r: Seq<char>) -> bool {
    starts_with(r, "ERROR: "@)
}

proof fn lemma_file_reply_not_error(name: Seq<char>, what: Seq<char>, rest: Seq<char>)
    ensures
        !is_error(crate::tools::file_header(name, what) + rest),
{
    reveal_strlit("ERROR: ");
    reveal_strlit("[File: ");
    let r = crate::tools::file_header(name, what) + rest;
    assert(r[0] == '[');
    if is_error(r) {
        assert(r.take(7)[0] == 'E');
    }
}

proof fn lemma_tool_names()
    ensures
        "open"@.len() == 4 && "goto"@.len() == 4 && "create"@.len() == 6 && "write"@.len() == 5
            && "scroll_up"@.len() == 9 && "scroll_down"@.len() == 11 && "find_file"@.len() == 9
            && "search_dir"@.len() == 10 && "search_file"@.len() == 11 && "edit"@.len() == 4
            && "insert"@.len() == 6 && "submit"@.len() == 6 && "filemap"@.len() == 7
            && "allow_outside_workspace"@.len() == 23,
        "open"@[0] == 'o' && "goto"@[0] == 'g' && "edit"@[0] == 'e',
        "create"@[0] == 'c' && "insert"@[0] == 'i' && "submit"@[0] == 's',
        "scroll_up"@[1] == 'c' && "find_file"@[1] == 'i',
        "scroll_down"@[1] == 'c' && "search_file"@[1] == 'e',
{
    reveal_strlit("open");
    reveal_strlit("goto");
    reveal_strlit("create");
    reveal_strlit("write");
    reveal_strlit("scroll_up");
    reveal_strlit("scroll_down");
    reveal_strlit("find_file");
    reveal_strlit("search_dir");
    reveal_strlit("search_file");
    reveal_strlit("edit");
    reveal_strlit("insert");
    reveal_strlit("submit");
    reveal_strlit("filemap");
    reveal_strlit("allow_outside_workspace");
}

proof fn lemma_goto_keeps(m: EditorView, a: Seq<(Seq<char>, ArgModel)>)
    ensures
        (crate::tools::goto_spec(m, a).1 matches StepView::Reply(r) && is_error(r))
            ==> crate::tools::goto_spec(m, a).0 == m,
{
    if m.current_file is Some && crate::args::arg_uint(a, "line_number"@) is Some {
        let f = m.current_file->Some_0;
        let ln = crate::args::arg_uint(a, "line_number"@)->Some_0 as usize;
        let m2 = crate::tools::with_start(m, crate::editor::centred_start(ln));
        lemma_file_reply_not_error(
            f,
            "goto line "@ + crate::text::dec(ln as nat),
            crate::editor::window_text_spec(m2),
        );
    }
}

proof fn lemma_scroll_keeps(m: EditorView)
    ensures
        (crate::tools::scroll_up_spec(m).1 matches StepView::Reply(r) && is_error(r))
            ==> crate::tools::scroll_up_spec(m).0 == m,
        (crate::tools::scroll_down_spec(m).1 matches StepView::Reply(r) && is_error(r))
            ==> crate::tools::scroll_down_spec(m).0 == m,
{
    if m.current_file is Some {
        let f = m.current_file->Some_0;
        lemma_file_reply_not_error(
            f,
            "scroll up"@,
            crate::editor::window_text_spec(crate::tools::scroll_up_spec(m).0),
        );
        lemma_file_reply_not_error(
            f,
            "scroll down"@,
            crate::editor::window_text_spec(crate::tools::scroll_down_spec(m).0),
        );
    }
}

proof fn lemma_allow_not_error(allow: bool, w: Seq<char>)
    ensures
        !is_error(crate::tools::allow_reply(allow, w)),
{
    reveal_strlit("ERROR: ");
    reveal_strlit(
        "\u{2705} Access outside workspace enabled. You can now use absolute paths and paths outside '",
    );
    reveal_strlit("\u{1f512} Access restricted to workspace '");
    let r = crate::tools::allow_reply(allow, w);
    if allow {
        assert(r[0] == '\u{2705}');
    } else {
        assert(r[0] == '\u{1f512}');
    }
    if is_error(r) {
        assert(r.take(7)[0] == 'E');
    }
}

/// A tool call that is answered at once with an error leaves the editor state as it was.
pub proof fn law_refused_calls_keep_state(m: EditorView, tool: Seq<char>, a: Seq<(Seq<char>, ArgModel)>)
    ensures
        (dispatch_spec(m, tool, a).1 matches StepView::Reply(r) && is_error(r)) ==> dispatch_spec(
            m,
            tool,
            a,
        ).0 == m,
{
    lemma_tool_names();
    if tool == "goto"@ {
        lemma_goto_keeps(m, a);
        assert(dispatch_spec(m, tool, a) == crate::tools::goto_spec(m, a));
    } else if tool == "scroll_up"@ {
        lemma_scroll_keeps(m);
        assert(dispatch_spec(m, tool, a) == crate::tools::scroll_up_spec(m));
    } else if tool == "scroll_down"@ {
        lemma_scroll_keeps(m);
        assert(dispatch_spec(m, tool, a) == crate::tools::scroll_down_spec(m));
    } else if tool == "allow_outside_workspace"@ {
        let allow = match crate::args::arg_bool(a, "allow"@) {
            Some(b) => b,
            None => true,
        };
        lemma_allow_not_error(allow, m.workdir);
        assert(dispatch_spec(m, tool, a) == crate::tools::allow_spec(m, a));
    }
}

/// A step that resumes a call and answers with an error leaves the editor state
/// as it was.
pub proof fn law_failed_steps_keep_state(m: EditorView, j: JobView, o: OutcomeView)
    ensures
        (resume_spec(m, j, o).1 matches StepView::Reply(r) && is_error(r)) ==> resume_spec(
            m,
            j,
            o,
        ).0 == m,
{
    let (m2, st) = resume_spec(m, j, o);
    match j {
        JobView::Open { path, line, full } => {
            if o is Text {
                let ls = crate::text::lines_of(o->Text_0);
                lemma_file_reply_not_error(
                    path,
                    crate::text::dec(ls.len()) + " lines"@,
                    crate::editor::window_text_spec(m2),
                );
            }
        },
        JobView::CreateFile { filename, full } => {
            lemma_file_reply_not_error(filename, "new file created"@, "(empty file)"@);
        },
        JobView::WriteFile { path, content, full, existed } => {
            let ls = crate::text::lines_of(content);
            let action = if existed {
                "overwritten"@
            } else {
                "new file written"@
            };
            lemma_file_reply_not_error(
                path,
                action + ", "@ + crate::text::dec(ls.len()) + " lines"@,
                crate::editor::window_text_spec(m2),
            );
        },
        JobView::Edit { fname, .. } => {
            lemma_file_reply_not_error(fname, "edited"@, crate::editor::window_text_spec(m2));
        },
        JobView::Insert { fname, .. } => {
            lemma_file_reply_not_error(fname, "text inserted"@, crate::editor::window_text_spec(m2));
        },
        _ => {},
    }
}

/// Writing a text leaves the editor exactly as opening a file holding that text
/// does, and the write hands the file system exactly that text.
pub proof fn law_write_then_open_agree(
    m: EditorView,
    path: Seq<char>,
    content: Seq<char>,
    full: Seq<char>,
    existed: bool,
)
    ensures
        resume_spec(
            m,
            JobView::WriteFile { path, content, full, existed },
            OutcomeView::Done,
        ).0 == resume_spec(m, JobView::Open { path, line: None, full }, OutcomeView::Text(content)).0,
        crate::tools::request_of(JobView::WriteFile { path, content, full, existed })
            == crate::tools::RequestView::Write(full, content),
{
}

// ---------------------------------------------------------------------------
// The error marker
// ---------------------------------------------------------------------------

proof fn lemma_first_not_e(r: Seq<char>)
    requires
        r.len() > 0,
        r[0] != 'E',
    ensures
        !is_error(r),
{
    reveal_strlit("ERROR: ");
    if is_error(r) {
        assert(r.take(7)[0] == 'E');
    }
}

proof fn lemma_error_marked(e: Seq<char>)
    ensures
        is_error(err(e)),
{
    reveal_strlit("ERROR: ");
    assert(err(e).take(7) =~= "ERROR: "@);
}

proof fn lemma_listing_not_error(lead: Seq<char>, rest: Seq<char>)
    requires
        lead == "No files found matching '"@ || lead == "No matches found for '"@ || lead
            == "Found "@ || lead == "[Filemap: "@ || lead == "\u{2705} Submitted successfully."@,
    ensures
        !is_error(lead + rest),
{
    reveal_strlit("No files found matching '");
    reveal_strlit("No matches found for '");
    reveal_strlit("Found ");
    reveal_strlit("[Filemap: ");
    reveal_strlit("\u{2705} Submitted successfully.");
    assert((lead + rest)[0] == lead[0]);
    lemma_first_not_e(lead + rest);
}

proof fn lemma_search_replies(term: Seq<char>, root: Seq<char>, res: Seq<Seq<char>>, w: Seq<char>, fname: Seq<char>, ls: Seq<Seq<char>>, pattern: Seq<char>)
    ensures
        !is_error(crate::tools::search_dir_reply(term, root, res, w)),
        !is_error(crate::tools::search_file_reply(term, fname, ls)),
        !is_error(crate::tools::find_reply(pattern, root, res, w)),
{
    let sd = crate::paths::strip_display(root, w);
    if res.len() == 0 {
        lemma_listing_not_error("No matches found for '"@, term + "' in "@ + sd);
        assert(crate::tools::search_dir_reply(term, root, res, w) =~= "No matches found for '"@ + (term + "' in "@ + sd));
        lemma_listing_not_error("No files found matching '"@, pattern + "' in "@ + sd);
        assert(crate::tools::find_reply(pattern, root, res, w) =~= "No files found matching '"@ + (pattern + "' in "@ + sd));
    } else {
        let tail = crate::text::dec(res.len()) + " match(es):\n"@ + join(res, seq!['\n']);
        lemma_listing_not_error("Found "@, tail);
        assert(crate::tools::search_dir_reply(term, root, res, w) =~= "Found "@ + tail);
        let tail2 = crate::text::dec(res.len()) + " file(s):\n"@ + join(res, seq!['\n']);
        lemma_listing_not_error("Found "@, tail2);
        assert(crate::tools::find_reply(pattern, root, res, w) =~= "Found "@ + tail2);
    }
    let hits = crate::search::cap(
        crate::search::file_hits(fname, ls, term),
        crate::search::MAX_RESULTS as nat,
    );
    if hits.len() == 0 {
        lemma_listing_not_error("No matches found for '"@, term + "' in "@ + fname);
        assert(crate::tools::search_file_reply(term, fname, ls) =~= "No matches found for '"@ + (term + "' in "@ + fname));
    } else {
        let tail = crate::text::dec(hits.len()) + " match(es) in "@ + fname + ":\n"@ + join(hits, seq!['\n']);
        lemma_listing_not_error("Found "@, tail);
        assert(crate::tools::search_file_reply(term, fname, ls) =~= "Found "@ + tail);
    }
}

/// A finished call's text is marked as an error exactly when the call failed.
proof fn lemma_marked_iff_failed(r: Result<Seq<char>, Seq<char>>)
    requires
        r matches Ok(s) ==> !is_error(s),
    ensures
        is_error(answer_text(r)) <==> r is Err,
{
    if let Err(e) = r {
        lemma_error_marked(e);
    }
}

proof fn lemma_search_next_ok(
    m: EditorView,
    term: Seq<char>,
    root: Seq<char>,
    files: Seq<Seq<char>>,
    from: nat,
    results: Seq<Seq<char>>,
)
    ensures
        search_next(m, term, root, files, from, results).1 matches Next::Done(r) ==> (r matches Ok(
            s,
        ) && !is_error(s)),
{
    lemma_search_replies(term, root, results, m.workdir, Seq::empty(), Seq::empty(), Seq::empty());
}

/// A tool call that is over at once answers with a text that begins with
/// `ERROR: ` exactly when it failed; the reply the caller sees is that text.
pub proof fn law_error_marks_failure(m: EditorView, tool: Seq<char>, a: Seq<(Seq<char>, ArgModel)>)
    ensures
        dispatch_spec(m, tool, a).1 == step_of(dispatch_next(m, tool, a).1),
        dispatch_next(m, tool, a).1 matches Next::Done(r) ==> (is_error(answer_text(r)) <==> r is Err),
{
    lemma_tool_names();
    let (m2, n) = dispatch_next(m, tool, a);
    if let Next::Done(r) = n {
        if let Ok(s) = r {
            if tool == "goto"@ || tool == "scroll_up"@ || tool == "scroll_down"@ {
                let f = m.current_file->Some_0;
                lemma_file_reply_not_error(
                    f,
                    if tool == "goto"@ {
                        "goto line "@ + crate::text::dec(
                            (crate::args::arg_uint(a, "line_number"@)->Some_0 as usize) as nat,
                        )
                    } else if tool == "scroll_up"@ {
                        "scroll up"@
                    } else {
                        "scroll down"@
                    },
                    crate::editor::window_text_spec(m2),
                );
            } else if tool == "search_file"@ {
                lemma_search_replies(
                    crate::args::arg_str(a, "search_term"@)->Some_0,
                    Seq::empty(),
                    Seq::empty(),
                    Seq::empty(),
                    m.current_file->Some_0,
                    crate::text::lines_of(join(m.lines, seq!['\n'])),
                    Seq::empty(),
                );
            } else if tool == "submit"@ {
                lemma_listing_not_error("\u{2705} Submitted successfully."@, Seq::empty());
                assert(crate::tools::submitted() + Seq::empty() =~= crate::tools::submitted());
            } else if tool == "allow_outside_workspace"@ {
                let allow = match crate::args::arg_bool(a, "allow"@) {
                    Some(b) => b,
                    None => true,
                };
                lemma_allow_not_error(allow, m.workdir);
            }
        }
        lemma_marked_iff_failed(r);
    }
}

/// A resumed call that is over answers with a text that begins with `ERROR: `
/// exactly when it failed; the reply the caller sees is that text.
pub proof fn law_resumed_error_marks_failure(m: EditorView, j: JobView, o: OutcomeView)
    ensures
        resume_spec(m, j, o).1 == step_of(resume_next(m, j, o).1),
        resume_next(m, j, o).1 matches Next::Done(r) ==> (is_error(answer_text(r)) <==> r is Err),
{
    reveal_strlit("ERROR: ");
    let (m2, n) = resume_next(m, j, o);
    if let Next::Done(r) = n {
        if let Ok(s) = r {
            if s.len() > 0 {
                match j {
                    JobView::Open { path, .. } => {
                        let ls = crate::text::lines_of(o->Text_0);
                        lemma_file_reply_not_error(
                            path,
                            crate::text::dec(ls.len()) + " lines"@,
                            crate::editor::window_text_spec(m2),
                        );
                    },
                    JobView::CreateFile { filename, .. } => {
                        lemma_file_reply_not_error(filename, "new file created"@, "(empty file)"@);
                    },
                    JobView::WriteFile { path, content, existed, .. } => {
                        let ls = crate::text::lines_of(content);
                        let action = if existed {
                            "overwritten"@
                        } else {
                            "new file written"@
                        };
                        lemma_file_reply_not_error(
                            path,
                            action + ", "@ + crate::text::dec(ls.len()) + " lines"@,
                            crate::editor::window_text_spec(m2),
                        );
                    },
                    JobView::FindFile { pattern, root } => {
                        lemma_search_replies(
                            Seq::empty(),
                            root,
                            crate::search::cap(
                                crate::search::find_hits(o->Files_0, pattern, m.workdir),
                                crate::search::MAX_RESULTS as nat,
                            ),
                            m.workdir,
                            Seq::empty(),
                            Seq::empty(),
                            pattern,
                        );
                    },
                    JobView::SearchList { term, root } => {
                        lemma_search_next_ok(m, term, root, o->Files_0, 0, Seq::empty());
                    },
                    JobView::SearchRead { term, root, files, next, results } => {
                        if o is Text {
                            let r2 = crate::search::cap(
                                results + crate::search::file_hits(
                                    crate::paths::strip_display(files[next as int], m.workdir),
                                    crate::text::lines_of(o->Text_0),
                                    term,
                                ),
                                crate::search::MAX_RESULTS as nat,
                            );
                            lemma_search_replies(term, root, r2, m.workdir, Seq::empty(), Seq::empty(), Seq::empty());
                            lemma_search_next_ok(m, term, root, files, next + 1, r2);
                        } else {
                            lemma_search_next_ok(m, term, root, files, next + 1, results);
                        }
                    },
                    JobView::SearchFile { term, fname, .. } => {
                        lemma_search_replies(
                            term,
                            Seq::empty(),
                            Seq::empty(),
                            Seq::empty(),
                            fname,
                            crate::text::lines_of(o->Text_0),
                            Seq::empty(),
                        );
                    },
                    JobView::Edit { fname, .. } => {
                        lemma_file_reply_not_error(fname, "edited"@, crate::editor::window_text_spec(m2));
                    },
                    JobView::Insert { fname, .. } => {
                        lemma_file_reply_not_error(fname, "text inserted"@, crate::editor::window_text_spec(m2));
                    },
                    JobView::Filemap { file_path, .. } => {
                        let ls = crate::text::lines_of(o->Text_0);
                        let tail = file_path + " ("@ + crate::text::dec(ls.len()) + " lines)]\n"@
                            + crate::search::outline(ls);
                        lemma_listing_not_error("[Filemap: "@, tail);
                        assert(s =~= "[Filemap: "@ + tail);
                    },
                    _ => {},
                }
            }
        }
        lemma_marked_iff_failed(r);
    }
}

// ---------------------------------------------------------------------------
// What the tools compute
// ---------------------------------------------------------------------------

/// Scrolling up moves the window back by a full window, and to the top when it
/// is less than a full window from it; nothing else changes.
pub proof fn law_scroll_up_moves_back(m: EditorView, a: Seq<(Seq<char>, ArgModel)>)
    requires
        m.current_file is Some,
    ensures
        ({
            let w: int = if m.window_start >= 100 {
                m.window_start - 100
            } else {
                0
            };
            &&& crate::tools::scroll_up_spec(m).0.window_start == w
            &&& crate::tools::scroll_up_spec(m).0 == (EditorView {
                window_start: crate::tools::scroll_up_spec(m).0.window_start,
                ..m
            })
            &&& dispatch_spec(m, "scroll_up"@, a) == crate::tools::scroll_up_spec(m)
        }),
{
    lemma_tool_names();
}

/// The first occurrence of `p` in `s` is at `i`.
pub open spec fn first_at(s: Seq<char>, p: Seq<char>, i: int) -> bool {
    &&& 0 <= i && i + p.len() <= s.len()
    &&& s.subrange(i, i + p.len()) == p
    &&& forall|j: int| 0 <= j < i && j + p.len() <= s.len() ==> #[trigger] s.subrange(j, j + p.len()) != p
}

/// Replacing the first occurrence replaces the text at that occurrence and
/// keeps everything before and after it.
pub proof fn lemma_replace_first_at(s: Seq<char>, p: Seq<char>, r: Seq<char>, i: int)
    requires
        first_at(s, p, i),
    ensures
        crate::text::replace_first(s, p, r) == s.take(i) + r + s.skip(i + p.len()),
    decreases s.len(),
{
    if i == 0 {
        assert(s.take(p.len() as int) == s.subrange(0, p.len() as int));
        assert(starts_with(s, p));
        assert(s.take(0) + r =~= r);
    } else {
        let j0: int = 0;
        assert(s.subrange(j0, j0 + p.len()) != p);
        assert(!starts_with(s, p)) by {
            if starts_with(s, p) {
                assert(s.take(p.len() as int) =~= s.subrange(0, p.len() as int));
            }
        }
        let t = s.drop_first();
        assert forall|j: int| 0 <= j < i - 1 && j + p.len() <= t.len() implies #[trigger] t.subrange(
            j,
            j + p.len(),
        ) != p by {
            assert(t.subrange(j, j + p.len()) =~= s.subrange(j + 1, j + 1 + p.len()));
        }
        assert(t.subrange(i - 1, i - 1 + p.len()) =~= s.subrange(i, i + p.len()));
        lemma_replace_first_at(t, p, r, i - 1);
        assert(s.take(i) =~= seq![s[0]] + t.take(i - 1));
        assert(s.skip(i + p.len()) =~= t.skip(i - 1 + p.len()));
        assert(seq![s[0]] + (t.take(i - 1) + r + t.skip(i - 1 + p.len())) =~= s.take(i) + r + s.skip(
            i + p.len(),
        ));
    }
}

/// Without `replace-all`, an edit writes the file's text with only the first
/// occurrence of the search text replaced; what follows it is kept as it was.
/// When the replacement differs from the search text, the edit is written.
pub proof fn law_edit_replaces_first_only(
    m: EditorView,
    a: Seq<(Seq<char>, ArgModel)>,
    sch: Seq<char>,
    rep: Seq<char>,
    i: int,
)
    requires
        m.current_file is Some,
        resolve_spec(m, m.current_file->Some_0) is Ok,
        arg_str(a, "search"@) == Some(sch),
        arg_str(a, "replace"@) == Some(rep),
        crate::args::arg_bool(a, "replace-all"@) != Some(true),
        first_at(join(m.lines, seq!['\n']), sch, i),
    ensures
        rep != sch ==> dispatch_spec(m, "edit"@, a).1 is Io,
        dispatch_spec(m, "edit"@, a).1 matches StepView::Io(JobView::Edit { content, .. })
            ==> content == join(m.lines, seq!['\n']).take(i) + rep + join(m.lines, seq!['\n']).skip(
            i + sch.len(),
        ),
{
    lemma_tool_names();
    let text = join(m.lines, seq!['\n']);
    lemma_replace_first_at(text, sch, rep, i);
    let new = text.take(i) + rep + text.skip(i + sch.len());
    assert(dispatch_spec(m, "edit"@, a) == edit_spec(m, a));
    if rep != sch {
        assert(new != text) by {
            if new.len() == text.len() {
                assert(rep.len() == sch.len());
                if forall|k: int| 0 <= k < rep.len() ==> rep[k] == sch[k] {
                    assert(rep =~= sch);
                }
                let k = choose|k: int| 0 <= k < rep.len() && rep[k] != sch[k];
                assert(new[i + k] == (text.take(i) + rep)[i + k]);
                assert(new[i + k] == rep[k]);
                assert(text.subrange(i, i + sch.len())[k] == sch[k]);
                assert(text[i + k] == sch[k]);
                assert(new[i + k] != text[i + k]);
            }
        }
    }
}

/// The files that `find_hits` lists: exactly those whose file name (last path
/// component) the pattern matches, shown relative to the workspace, in walk order.
proof fn lemma_find_hits_names(fs: Seq<Seq<char>>, pattern: Seq<char>, w: Seq<char>)
    ensures
        forall|k: int|
            #![trigger crate::search::find_hits(fs, pattern, w)[k]]
            0 <= k < crate::search::find_hits(fs, pattern, w).len() ==> exists|j: int|
                0 <= j < fs.len() && crate::glob::glob_spec(pattern, crate::paths::file_name(#[trigger] fs[j]))
                    && crate::search::find_hits(fs, pattern, w)[k] == crate::paths::strip_display(fs[j], w),
        forall|j: int|
            0 <= j < fs.len() && crate::glob::glob_spec(pattern, crate::paths::file_name(#[trigger] fs[j]))
                ==> crate::search::find_hits(fs, pattern, w).contains(crate::paths::strip_display(fs[j], w)),
    decreases fs.len(),
{
    if fs.len() == 0 {
        assert(crate::search::find_hits(fs, pattern, w).len() == 0);
    } else {
        let dl = fs.drop_last();
        lemma_find_hits_names(dl, pattern, w);
        let before = crate::search::find_hits(dl, pattern, w);
        let h = crate::search::find_hits(fs, pattern, w);
        assert forall|k: int| #![trigger h[k]] 0 <= k < h.len() implies exists|j: int|
            0 <= j < fs.len() && crate::glob::glob_spec(pattern, crate::paths::file_name(#[trigger] fs[j]))
                && h[k] == crate::paths::strip_display(fs[j], w) by {
            if k < before.len() {
                assert(h[k] == before[k]);
                let j = choose|j: int|
                    0 <= j < dl.len() && crate::glob::glob_spec(pattern, crate::paths::file_name(#[trigger] dl[j]))
                        && before[k] == crate::paths::strip_display(dl[j], w);
                assert(dl[j] == fs[j]);
            } else {
                assert(fs[fs.len() - 1] == fs.last());
            }
        }
        assert forall|j: int|
            0 <= j < fs.len() && crate::glob::glob_spec(pattern, crate::paths::file_name(#[trigger] fs[j]))
                implies h.contains(crate::paths::strip_display(fs[j], w)) by {
            if j < dl.len() {
                assert(dl[j] == fs[j]);
                let k = choose|k: int| 0 <= k < before.len() && before[k] == crate::paths::strip_display(dl[j], w);
                assert(h[k] == before[k]);
            } else {
                assert(fs[j] == fs.last());
                assert(h[h.len() - 1] == crate::paths::strip_display(fs.last(), w));
            }
        }
    }
}

/// `find_file` answers from the listed files exactly those whose file name (the
/// last path component, whatever the depth) the pattern matches, shown relative
/// to the workspace, at most 50 of them; a pattern without wildcards finds the
/// files so named.
pub proof fn law_find_file_matches_names(
    m: EditorView,
    pattern: Seq<char>,
    root: Seq<char>,
    fs: Seq<Seq<char>>,
)
    ensures
        ({
            let hits = crate::search::find_hits(fs, pattern, m.workdir);
            &&& resume_spec(m, JobView::FindFile { pattern, root }, OutcomeView::Files(fs)) == (
            m,
            StepView::Reply(
                crate::tools::find_reply(
                    pattern,
                    root,
                    crate::search::cap(hits, crate::search::MAX_RESULTS as nat),
                    m.workdir,
                ),
            ))
            &&& forall|k: int|
                #![trigger hits[k]]
                0 <= k < hits.len() ==> exists|j: int|
                    0 <= j < fs.len() && crate::glob::glob_spec(
                        pattern,
                        crate::paths::file_name(#[trigger] fs[j]),
                    ) && hits[k] == crate::paths::strip_display(fs[j], m.workdir)
            &&& forall|j: int|
                0 <= j < fs.len() && crate::glob::glob_spec(pattern, crate::paths::file_name(#[trigger] fs[j]))
                    ==> hits.contains(crate::paths::strip_display(fs[j], m.workdir))
            &&& forall|j: int|
                0 <= j < fs.len() && !pattern.contains('*') && !pattern.contains('?')
                    && crate::paths::file_name(#[trigger] fs[j]) == pattern ==> hits.contains(
                    crate::paths::strip_display(fs[j], m.workdir),
                )
        }),
{
    lemma_find_hits_names(fs, pattern, m.workdir);
    assert forall|j: int|
        0 <= j < fs.len() && !pattern.contains('*') && !pattern.contains('?')
            && crate::paths::file_name(#[trigger] fs[j]) == pattern implies crate::search::find_hits(
        fs,
        pattern,
        m.workdir,
    ).contains(crate::paths::strip_display(fs[j], m.workdir)) by {
        law_plain_pattern_is_literal(pattern, crate::paths::file_name(fs[j]));
    }
}

/// Lines after the first `k` do not change the outline of those `k` lines.
proof fn lemma_outline_prefix(a: Seq<Seq<char>>, b: Seq<Seq<char>>, k: nat)
    requires
        k <= a.len(),
    ensures
        crate::search::outline_upto(a + b, k) == crate::search::outline_upto(a, k),
    decreases k,
{
    if k > 0 {
        lemma_outline_prefix(a, b, (k - 1) as nat);
        assert((a + b)[k - 1] == a[k - 1]);
    }
}

/// Inside a definition's body, blank lines and lines indented deeper than the
/// definition that open no definition leave the outline as it is.
proof fn lemma_body_skipped(ls: Seq<Seq<char>>, n: nat, k: nat, out: Seq<char>, level: nat)
    requires
        n < k <= ls.len(),
        crate::search::outline_upto(ls, n + 1) == (out, true, level),
        forall|i: int|
            n + 1 <= i < ls.len() ==> !crate::search::is_def(crate::text::trim(#[trigger] ls[i])) && (
            crate::text::trim(ls[i]).len() == 0 || crate::search::indent(ls[i]) > level),
    ensures
        crate::search::outline_upto(ls, k) == (out, true, level),
    decreases k,
{
    if k > n + 1 {
        lemma_body_skipped(ls, n, (k - 1) as nat, out, level);
        let line = ls[k - 1];
        assert(!crate::search::is_def(crate::text::trim(line)) && (crate::text::trim(line).len() == 0
            || crate::search::indent(line) > level));
    }
}

/// A line whose trimmed text begins with `def ` opens a definition, in Python
/// as in the other languages: the outline shows it and leaves out the lines
/// after it that open no definition themselves and are blank or indented
/// deeper than it.
pub proof fn law_def_lines_hide_bodies(pre: Seq<Seq<char>>, d: Seq<char>, body: Seq<Seq<char>>)
    requires
        starts_with(crate::text::trim(d), "def "@),
        forall|k: int|
            0 <= k < body.len() ==> !crate::search::is_def(crate::text::trim(#[trigger] body[k])) && (
            crate::text::trim(body[k]).len() == 0 || crate::search::indent(body[k])
                > crate::search::indent(d)),
    ensures
        crate::search::outline(pre.push(d) + body) == crate::search::outline(pre)
            + crate::editor::row(pre.len(), d),
{
    let ls = pre.push(d) + body;
    let n = pre.len();
    assert(ls =~= pre + (seq![d] + body));
    lemma_outline_prefix(pre, seq![d] + body, n);
    assert(ls[n as int] == d);
    assert(crate::search::is_def(crate::text::trim(d)));
    let out = crate::search::outline(pre) + crate::editor::row(n, d);
    let level = crate::search::indent(d);
    assert(crate::search::outline_upto(ls, n + 1) == (out, true, level));
    assert forall|i: int|
        n + 1 <= i < ls.len() implies !crate::search::is_def(crate::text::trim(#[trigger] ls[i])) && (
        crate::text::trim(ls[i]).len() == 0 || crate::search::indent(ls[i]) > level) by {
        assert(ls[i] == body[i - n - 1]);
    }
    lemma_body_skipped(ls, n, ls.len(), out, level);
}

/// `filemap` answers with the outline of the file's lines.
pub proof fn law_filemap_shows_outline(m: EditorView, file_path: Seq<char>, full: Seq<char>, c: Seq<char>)
    ensures
        resume_spec(m, JobView::Filemap { file_path, full }, OutcomeView::Text(c)) == (
        m,
        StepView::Reply(
            "[Filemap: "@ + file_path + " ("@ + crate::text::dec(crate::text::lines_of(c).len())
                + " lines)]\n"@ + crate::search::outline(crate::text::lines_of(c)),
        ),
        ),
{
}

/// Every hit that `file_hits` finds begins with the given prefix and a colon.
proof fn lemma_hits_prefixed(prefix: Seq<char>, ls: Seq<Seq<char>>, term: Seq<char>, k: nat)
    ensures
        forall|i: int|
            0 <= i < crate::search::hits_upto(prefix, ls, term, k).len() ==> starts_with(
                #[trigger] crate::search::hits_upto(prefix, ls, term, k)[i],
                prefix + ":"@,
            ),
    decreases k,
{
    if k > 0 && k <= ls.len() {
        lemma_hits_prefixed(prefix, ls, term, (k - 1) as nat);
        let h = crate::search::hit_line(prefix, (k - 1) as nat, ls[k - 1]);
        let p = prefix + ":"@;
        assert(h.take(p.len() as int) =~= p);
        let before = crate::search::hits_upto(prefix, ls, term, (k - 1) as nat);
        let now = crate::search::hits_upto(prefix, ls, term, k);
        assert forall|i: int| 0 <= i < now.len() implies starts_with(#[trigger] now[i], p) by {
            if i < before.len() {
                assert(now[i] == before[i]);
            } else {
                assert(now[i] == h);
            }
        }
    }
}

/// The search results after a step: `results` kept in front, and every hit
/// added after them beginning with `prefix`.
pub open spec fn hits_after(r2: Seq<Seq<char>>, results: Seq<Seq<char>>, prefix: Seq<char>) -> bool {
    &&& results.len() <= r2.len()
    &&& r2.take(results.len() as int) == results
    &&& forall|k: int| results.len() <= k < r2.len() ==> starts_with(#[trigger] r2[k], prefix)
}

/// Each hit that a directory search finds in a file begins with that file's
/// path shown relative to the workspace (whatever directory was searched),
/// then a colon; the hits found before are kept in front. The search goes on
/// with these results or answers with them.
pub proof fn law_search_hits_name_files(
    m: EditorView,
    term: Seq<char>,
    root: Seq<char>,
    files: Seq<Seq<char>>,
    next: nat,
    results: Seq<Seq<char>>,
    c: Seq<char>,
)
    requires
        next < files.len(),
        results.len() < crate::search::MAX_RESULTS,
    ensures
        ({
            let st = resume_spec(
                m,
                JobView::SearchRead { term, root, files, next, results },
                OutcomeView::Text(c),
            ).1;
            let prefix = crate::paths::strip_display(files[next as int], m.workdir) + ":"@;
            exists|r2: Seq<Seq<char>>|
                #[trigger] hits_after(r2, results, prefix) && (st == StepView::Reply(
                    crate::tools::search_dir_reply(term, root, r2, m.workdir),
                ) || (st matches StepView::Io(JobView::SearchRead { results: rr, .. }) && rr == r2))
        }),
{
    let sd = crate::paths::strip_display(files[next as int], m.workdir);
    let prefix = sd + ":"@;
    let ls = crate::text::lines_of(c);
    let fh = crate::search::file_hits(sd, ls, term);
    let all = results + fh;
    let r2 = crate::search::cap(all, crate::search::MAX_RESULTS as nat);
    lemma_hits_prefixed(sd, ls, term, ls.len());
    assert(r2.take(results.len() as int) =~= results);
    assert forall|k: int| results.len() <= k < r2.len() implies starts_with(#[trigger] r2[k], prefix) by {
        assert(r2[k] == all[k]);
        assert(all[k] == fh[k - results.len()]);
    }
    assert(hits_after(r2, results, prefix));
}

} // verus!
