//! Unix path text as a sequence of components, and the lexical operations
//! on it that the workspace guard uses.
//!
//! A path is read the way `std::path::Path::components` reads it on Unix:
//! a leading `/` is the root, repeated and trailing separators are ignored,
//! `.` is dropped except as the very first component of a relative path, and
//! `..` stays.

use vstd::prelude::*;
use crate::text::{split_on, starts_with, join, lemma_split_step, lemma_split_nonempty};

verus! {

/// A path component.
pub enum Comp {
    Root,
    Cur,
    Parent,
    Normal(Seq<char>),
}

/// A path component, as the executable code holds it.
pub enum PathPart {
    RootDir,
    CurDir,
    ParentDir,
    Normal(Vec<char>),
}

pub open spec fn part_view(p: PathPart) -> Comp {
    match p {
        PathPart::RootDir => Comp::Root,
        PathPart::CurDir => Comp::Cur,
        PathPart::ParentDir => Comp::Parent,
        PathPart::Normal(v) => Comp::Normal(v@),
    }
}

pub open spec fn parts_view(v: Seq<PathPart>) -> Seq<Comp> {
    v.map_values(|p: PathPart| part_view(p))
}

/// The component that one separator-free piece of a path contributes.
pub open spec fn seg_comp(seg: Seq<char>) -> Seq<Comp> {
    if seg.len() == 0 || seg == seq!['.'] {
        Seq::empty()
    } else if seg == seq!['.', '.'] {
        seq![Comp::Parent]
    } else {
        seq![Comp::Normal(seg)]
    }
}

/// The components of a sequence of separator-free pieces.
pub open spec fn body_comps(segs: Seq<Seq<char>>) -> Seq<Comp>
    decreases segs.len(),
{
    if segs.len() == 0 {
        Seq::empty()
    } else {
        body_comps(segs.drop_last()) + seg_comp(segs.last())
    }
}

/// The path begins at the root.
pub open spec fn has_root(s: Seq<char>) -> bool {
    s.len() > 0 && s[0] == '/'
}

/// The path begins with a `.` component, the one place where `.` is kept.
pub open spec fn leading_cur(s: Seq<char>) -> bool {
    s == seq!['.'] || starts_with(s, seq!['.', '/'])
}

/// The components of the path text `s`.
pub open spec fn components(s: Seq<char>) -> Seq<Comp> {
    let head = if has_root(s) {
        seq![Comp::Root]
    } else if leading_cur(s) {
        seq![Comp::Cur]
    } else {
        Seq::empty()
    };
    head + body_comps(split_on(s, '/'))
}

/// Folds `..` and `.` lexically, as pushing the components one by one onto an
/// empty `PathBuf` does when `..` pops (`..` at the top of the path is lost).
pub open spec fn normalize(cs: Seq<Comp>) -> Seq<Comp>
    decreases cs.len(),
{
    if cs.len() == 0 {
        Seq::empty()
    } else {
        let acc = normalize(cs.drop_last());
        match cs.last() {
            Comp::Root => seq![Comp::Root],
            Comp::Cur => acc,
            Comp::Parent => if acc.len() > 0 && acc.last() is Normal {
                acc.drop_last()
            } else {
                acc
            },
            Comp::Normal(x) => acc.push(Comp::Normal(x)),
        }
    }
}

/// `a` is a prefix of `b`.
pub open spec fn is_prefix(a: Seq<Comp>, b: Seq<Comp>) -> bool {
    a.len() <= b.len() && b.take(a.len() as int) == a
}

/// The text of one component.
pub open spec fn comp_text(c: Comp) -> Seq<char> {
    match c {
        Comp::Root => seq!['/'],
        Comp::Cur => seq!['.'],
        Comp::Parent => seq!['.', '.'],
        Comp::Normal(x) => x,
    }
}

/// The path text of a component sequence: a root, then the other components
/// joined by single separators.
pub open spec fn render(cs: Seq<Comp>) -> Seq<char> {
    if cs.len() > 0 && cs[0] is Root {
        seq!['/'] + join(cs.drop_first().map_values(|c: Comp| comp_text(c)), seq!['/'])
    } else {
        join(cs.map_values(|c: Comp| comp_text(c)), seq!['/'])
    }
}

/// The display of `path` relative to `base` (`Path::strip_prefix`), or `path`
/// itself when `base` is not a component prefix of it.
pub open spec fn strip_display(path: Seq<char>, base: Seq<char>) -> Seq<char> {
    let pc = components(path);
    let bc = components(base);
    if is_prefix(bc, pc) {
        render(pc.skip(bc.len() as int))
    } else {
        path
    }
}

/// The last component's name when it is a normal component, else the whole path
/// (what a directory walk reports as an entry's file name).
pub open spec fn file_name(path: Seq<char>) -> Seq<char> {
    let cs = components(path);
    if cs.len() > 0 && cs.last() is Normal {
        cs.last()->Normal_0
    } else {
        path
    }
}

/// The position of the last `.` in `s`, if any.
pub open spec fn last_dot(s: Seq<char>) -> Option<int>
    decreases s.len(),
{
    if s.len() == 0 {
        None
    } else if s.last() == '.' {
        Some(s.len() - 1)
    } else {
        last_dot(s.drop_last())
    }
}

/// `Path::extension` of a file name: the text after the last `.`, unless there is
/// no `.` or the only one starts the name.
pub open spec fn extension(name: Seq<char>) -> Option<Seq<char>> {
    match last_dot(name) {
        Some(k) => if k == 0 {
            None
        } else {
            Some(name.skip(k + 1))
        },
        None => None,
    }
}

pub proof fn lemma_last_dot_bounds(s: Seq<char>)
    ensures
        last_dot(s) matches Some(k) ==> 0 <= k < s.len() && s[k] == '.',
    decreases s.len(),
{
    if s.len() > 0 && s.last() != '.' {
        lemma_last_dot_bounds(s.drop_last());
    }
}

// ---------------------------------------------------------------------------
// Executable operations
// ---------------------------------------------------------------------------

fn seg_part(seg: Vec<char>, parts: &mut Vec<PathPart>)
    ensures
        parts_view(final(parts)@) == parts_view(old(parts)@) + seg_comp(seg@),
{
    let ghost before = parts@;
    let n = seg.len();
    let dot = n == 1 && seg[0] == '.';
    let dotdot = n == 2 && seg[0] == '.' && seg[1] == '.';
    proof {
        if seg@ == seq!['.'] {
            assert(seg@[0] == '.');
        }
        if seg@ == seq!['.', '.'] {
            assert(seg@[0] == '.' && seg@[1] == '.');
        }
        if dot {
            assert(seg@ =~= seq!['.']);
        }
        if dotdot {
            assert(seg@ =~= seq!['.', '.']);
        }
    }
    if n == 0 || dot {
    } else if dotdot {
        parts.push(PathPart::ParentDir);
    } else {
        parts.push(PathPart::Normal(seg));
    }
    assert(parts_view(parts@) =~= parts_view(before) + seg_comp(seg@));
}

/// The components of the path text `s`.
pub fn components_of(s: &[char]) -> (r: Vec<PathPart>)
    ensures
        parts_view(r@) == components(s@),
{
    let mut parts: Vec<PathPart> = Vec::new();
    let n = s.len();
    if n > 0 && s[0] == '/' {
        parts.push(PathPart::RootDir);
    } else if (n == 1 && s[0] == '.') || (n >= 2 && s[0] == '.' && s[1] == '/') {
        parts.push(PathPart::CurDir);
    }
    proof {
        if s@ == seq!['.'] {
            assert(s@[0] == '.');
        }
        if starts_with(s@, seq!['.', '/']) {
            assert(s@.take(2)[0] == '.' && s@.take(2)[1] == '/');
        }
        if n == 1 && s@[0] == '.' {
            assert(s@ =~= seq!['.']);
        }
        if n >= 2 && s@[0] == '.' && s@[1] == '/' {
            assert(s@.take(2) =~= seq!['.', '/']);
        }
    }
    let ghost head = parts_view(parts@);
    assert(head + body_comps(Seq::<Seq<char>>::empty()) =~= head);
    let mut cur: Vec<char> = Vec::new();
    let mut i: usize = 0;
    assert(s@.take(0) =~= Seq::<char>::empty());
    while i < n
        invariant
            n == s@.len(),
            i <= n,
            split_on(s@.take(i as int), '/').len() >= 1,
            cur@ == split_on(s@.take(i as int), '/').last(),
            parts_view(parts@) == head + body_comps(split_on(s@.take(i as int), '/').drop_last()),
        decreases n - i,
    {
        proof {
            lemma_split_step(s@, i as int, '/');
            lemma_split_nonempty(s@.take(i as int), '/');
        }
        let ghost segs = split_on(s@.take(i as int), '/');
        let c = s[i];
        if c == '/' {
            let seg = cur;
            seg_part(seg, &mut parts);
            cur = Vec::new();
            proof {
                let nsegs = split_on(s@.take(i + 1), '/');
                assert(nsegs.drop_last() =~= segs);
                assert(segs.drop_last().push(segs.last()) =~= segs);
                assert(body_comps(segs) == body_comps(segs.drop_last()) + seg_comp(segs.last()));
                assert(parts_view(parts@) =~= head + body_comps(nsegs.drop_last()));
            }
        } else {
            cur.push(c);
            proof {
                let nsegs = split_on(s@.take(i + 1), '/');
                assert(nsegs.drop_last() =~= segs.drop_last());
            }
        }
        i = i + 1;
    }
    proof {
        assert(s@.take(n as int) =~= s@);
        lemma_split_nonempty(s@, '/');
    }
    let ghost segs = split_on(s@, '/');
    seg_part(cur, &mut parts);
    proof {
        assert(segs.drop_last().push(segs.last()) =~= segs);
        assert(body_comps(segs) == body_comps(segs.drop_last()) + seg_comp(segs.last()));
        assert(parts_view(parts@) =~= head + body_comps(segs));
    }
    parts
}

/// A copy of a component.
pub fn copy_part(p: &PathPart) -> (r: PathPart)
    ensures
        part_view(r) == part_view(*p),
{
    match p {
        PathPart::RootDir => PathPart::RootDir,
        PathPart::CurDir => PathPart::CurDir,
        PathPart::ParentDir => PathPart::ParentDir,
        PathPart::Normal(v) => PathPart::Normal(crate::text::copy(v.as_slice())),
    }
}

/// The lexical normal form of `parts` (`..` pops a normal component, `.` goes).
pub fn normalize_parts(parts: &Vec<PathPart>) -> (r: Vec<PathPart>)
    ensures
        parts_view(r@) == normalize(parts_view(parts@)),
{
    let mut out: Vec<PathPart> = Vec::new();
    let mut i: usize = 0;
    while i < parts.len()
        invariant
            i <= parts@.len(),
            parts_view(out@) == normalize(parts_view(parts@).take(i as int)),
        decreases parts@.len() - i,
    {
        let ghost before = parts_view(out@);
        let ghost pre = parts_view(parts@).take(i as int);
        let ghost now = parts_view(parts@).take(i + 1);
        assert(now.drop_last() =~= pre);
        assert(now.last() == part_view(parts@[i as int]));
        match &parts[i] {
            PathPart::RootDir => {
                out = Vec::new();
                out.push(PathPart::RootDir);
                assert(parts_view(out@) =~= seq![Comp::Root]);
            },
            PathPart::CurDir => {},
            PathPart::ParentDir => {
                let m = out.len();
                if m > 0 {
                    let is_normal = match &out[m - 1] {
                        PathPart::Normal(_) => true,
                        _ => false,
                    };
                    if is_normal {
                        out.pop();
                        assert(parts_view(out@) =~= before.drop_last());
                    }
                }
            },
            PathPart::Normal(v) => {
                out.push(PathPart::Normal(crate::text::copy(v.as_slice())));
                assert(parts_view(out@) =~= before.push(now.last()));
            },
        }
        i = i + 1;
    }
    assert(parts_view(parts@).take(i as int) =~= parts_view(parts@));
    out
}

fn same_part(a: &PathPart, b: &PathPart) -> (r: bool)
    ensures
        r == (part_view(*a) == part_view(*b)),
{
    match (a, b) {
        (PathPart::RootDir, PathPart::RootDir) => true,
        (PathPart::CurDir, PathPart::CurDir) => true,
        (PathPart::ParentDir, PathPart::ParentDir) => true,
        (PathPart::Normal(x), PathPart::Normal(y)) => crate::text::same(x.as_slice(), y.as_slice()),
        _ => false,
    }
}

/// Whether `a` is a component prefix of `b` (`Path::starts_with`).
pub fn parts_prefix(a: &Vec<PathPart>, b: &Vec<PathPart>) -> (r: bool)
    ensures
        r == is_prefix(parts_view(a@), parts_view(b@)),
{
    if a.len() > b.len() {
        return false;
    }
    let mut i: usize = 0;
    while i < a.len()
        invariant
            a@.len() <= b@.len(),
            i <= a@.len(),
            forall|k: int| 0 <= k < i ==> part_view(a@[k]) == part_view(b@[k]),
        decreases a@.len() - i,
    {
        if !same_part(&a[i], &b[i]) {
            assert(parts_view(b@).take(a@.len() as int)[i as int] != parts_view(a@)[i as int]);
            return false;
        }
        i = i + 1;
    }
    assert(parts_view(b@).take(a@.len() as int) =~= parts_view(a@));
    true
}

fn part_text(p: &PathPart) -> (r: Vec<char>)
    ensures
        r@ == comp_text(part_view(*p)),
{
    match p {
        PathPart::RootDir => vec!['/'],
        PathPart::CurDir => vec!['.'],
        PathPart::ParentDir => vec!['.', '.'],
        PathPart::Normal(v) => crate::text::copy(v.as_slice()),
    }
}

/// The path text of `parts[from..]`.
pub fn render_parts(parts: &Vec<PathPart>, from: usize) -> (r: Vec<char>)
    requires
        from <= parts@.len(),
    ensures
        r@ == render(parts_view(parts@).skip(from as int)),
{
    let ghost cs = parts_view(parts@).skip(from as int);
    let mut start = from;
    let mut out: Vec<char> = Vec::new();
    let root = from < parts.len() && match &parts[from] {
        PathPart::RootDir => true,
        _ => false,
    };
    if root {
        out.push('/');
        start = from + 1;
    }
    let mut texts: Vec<Vec<char>> = Vec::new();
    let mut i = start;
    while i < parts.len()
        invariant
            start <= i <= parts@.len(),
            crate::text::views(texts@) == parts_view(parts@).skip(start as int).take(
                i - start,
            ).map_values(|c: Comp| comp_text(c)),
        decreases parts@.len() - i,
    {
        let ghost prev = crate::text::views(texts@);
        let ghost old_target = parts_view(parts@).skip(start as int).take(i - start).map_values(
            |c: Comp| comp_text(c),
        );
        let t = part_text(&parts[i]);
        let ghost tv = t@;
        texts.push(t);
        i = i + 1;
        assert(crate::text::views(texts@) =~= prev.push(tv));
        assert(parts_view(parts@).skip(start as int).take(i - start).map_values(
            |c: Comp| comp_text(c),
        ) =~= old_target.push(tv));
    }
    let body = crate::text::join_chars(&texts, '/');
    crate::text::extend(&mut out, body.as_slice());
    proof {
        assert(parts_view(parts@).skip(start as int).take(i - start) =~= parts_view(
            parts@,
        ).skip(start as int));
        if root {
            assert(cs.drop_first() =~= parts_view(parts@).skip(start as int));
        } else {
            assert(cs =~= parts_view(parts@).skip(start as int));
        }
        assert(out@ =~= render(cs));
    }
    out
}

/// `path` relative to `base` for display (see `strip_display`).
pub fn strip_display_exec(path: &[char], base: &[char]) -> (r: Vec<char>)
    ensures
        r@ == strip_display(path@, base@),
{
    let pc = components_of(path);
    let bc = components_of(base);
    if parts_prefix(&bc, &pc) {
        proof {
            assert(parts_view(pc@).skip(bc@.len() as int) =~= parts_view(pc@).skip(
                parts_view(bc@).len() as int,
            ));
        }
        render_parts(&pc, bc.len())
    } else {
        crate::text::copy(path)
    }
}

/// The file name of `path` (see `file_name`).
pub fn file_name_exec(path: &[char]) -> (r: Vec<char>)
    ensures
        r@ == file_name(path@),
{
    let pc = components_of(path);
    let n = pc.len();
    if n > 0 {
        match &pc[n - 1] {
            PathPart::Normal(v) => {
                return crate::text::copy(v.as_slice());
            },
            _ => {},
        }
    }
    crate::text::copy(path)
}

/// The extension of the file name `name` (see `extension`).
pub fn extension_exec(name: &[char]) -> (r: Option<Vec<char>>)
    ensures
        match r {
            Some(v) => extension(name@) == Some(v@),
            None => extension(name@) is None,
        },
{
    let mut j: usize = name.len();
    assert(name@.take(j as int) =~= name@);
    while j > 0 && name[j - 1] != '.'
        invariant
            j <= name@.len(),
            last_dot(name@) == last_dot(name@.take(j as int)),
        decreases j,
    {
        assert(name@.take(j as int).drop_last() =~= name@.take(j - 1));
        j = j - 1;
    }
    if j == 0 {
        assert(name@.take(0).len() == 0);
        return None;
    }
    assert(name@.take(j as int).last() == name@[j - 1]);
    assert(last_dot(name@) == Some(j - 1));
    if j == 1 {
        return None;
    }
    let rest = &name[j..name.len()];
    Some(crate::text::copy(rest))
}


/// Folds `..` and `.` in the path text `path` without touching the file
/// system (`..` at the top of the path is dropped). The result has no `.` or
/// `..` components, begins at the root exactly when `path` does, and
/// normalizes to itself.
pub fn normalize_path(path: &str) -> (r: String)
    ensures
        r@ == render(normalize(components(path@))),
        forall|i: int|
            0 <= i < components(r@).len() ==> !(#[trigger] components(r@)[i] is Cur) && !(
            components(r@)[i] is Parent),
        has_root(r@) == has_root(path@),
        render(normalize(components(r@))) == r@,
{
    proof {
        crate::laws::law_normalized_paths(path@);
    }
    let v = crate::text::chars_of(path);
    let parts = components_of(v.as_slice());
    let n = normalize_parts(&parts);
    let out = render_parts(&n, 0);
    assert(parts_view(n@).skip(0) =~= parts_view(n@));
    crate::text::string_of(out.as_slice())
}

} // verus!
