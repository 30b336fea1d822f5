//! What the search and outline tools compute from file contents and file lists.

use vstd::prelude::*;
use crate::text::{
    views, contains, trim, trim_start, take_chars, dec, starts_with, utf8_size, utf8_len, join,
    split_on, strip_cr, lines_of, push_str, extend, push_dec, contains_chars, contains_str,
    trim_chars, take_chars_exec, has_prefix, leading_ws, copy, lemma_split_nonempty,
};
use crate::paths::{file_name, strip_display, extension, file_name_exec, strip_display_exec, extension_exec};
use crate::editor::row;
use crate::glob::glob_spec;

verus! {

/// The most results a search reports.
pub const MAX_RESULTS: usize = 50;

/// The first `n` items of `s` (all of them if it is shorter).
pub open spec fn cap<T>(s: Seq<T>, n: nat) -> Seq<T> {
    if s.len() <= n {
        s
    } else {
        s.take(n as int)
    }
}

/// One search hit: where, the line number, and the trimmed line cut to 120 characters.
pub open spec fn hit_line(prefix: Seq<char>, i: nat, line: Seq<char>) -> Seq<char> {
    prefix + ":"@ + dec(i + 1) + ": "@ + take_chars(trim(line), 120)
}

/// The hits among the first `k` lines of `ls`.
pub open spec fn hits_upto(prefix: Seq<char>, ls: Seq<Seq<char>>, term: Seq<char>, k: nat) -> Seq<
    Seq<char>,
>
    decreases k,
{
    if k == 0 || k > ls.len() {
        Seq::empty()
    } else {
        let before = hits_upto(prefix, ls, term, (k - 1) as nat);
        if contains(ls[k - 1], term) {
            before.push(hit_line(prefix, (k - 1) as nat, ls[k - 1]))
        } else {
            before
        }
    }
}

/// Every line of `ls` that contains `term`, as hits.
pub open spec fn file_hits(prefix: Seq<char>, ls: Seq<Seq<char>>, term: Seq<char>) -> Seq<Seq<char>> {
    hits_upto(prefix, ls, term, ls.len())
}

/// The files among `files` whose name matches `pattern`, shown relative to the workspace.
pub open spec fn find_hits(files: Seq<Seq<char>>, pattern: Seq<char>, workdir: Seq<char>) -> Seq<
    Seq<char>,
>
    decreases files.len(),
{
    if files.len() == 0 {
        Seq::empty()
    } else {
        let before = find_hits(files.drop_last(), pattern, workdir);
        if glob_spec(pattern, file_name(files.last())) {
            before.push(strip_display(files.last(), workdir))
        } else {
            before
        }
    }
}

/// Extensions of files that a directory search does not read.
pub open spec fn is_binary_ext(e: Seq<char>) -> bool {
    ||| e == "png"@
    ||| e == "jpg"@
    ||| e == "jpeg"@
    ||| e == "gif"@
    ||| e == "ico"@
    ||| e == "woff"@
    ||| e == "woff2"@
    ||| e == "ttf"@
    ||| e == "eot"@
    ||| e == "so"@
    ||| e == "dylib"@
    ||| e == "dll"@
    ||| e == "exe"@
    ||| e == "o"@
    ||| e == "a"@
    ||| e == "zip"@
    ||| e == "tar"@
    ||| e == "gz"@
    ||| e == "bz2"@
    ||| e == "xz"@
}

/// A directory search reads this file.
pub open spec fn searchable(path: Seq<char>) -> bool {
    match extension(file_name(path)) {
        Some(e) => !is_binary_ext(e),
        None => true,
    }
}

/// The width in bytes of a line's indentation.
pub open spec fn indent(line: Seq<char>) -> nat {
    (utf8_size(line) - utf8_size(trim_start(line))) as nat
}

/// A trimmed line that opens a definition (function, type, class, constant, ...).
pub open spec fn is_def(t: Seq<char>) -> bool {
    ||| starts_with(t, "def "@)
    ||| starts_with(t, "class "@)
    ||| starts_with(t, "fn "@)
    ||| starts_with(t, "pub fn "@)
    ||| starts_with(t, "pub(crate) fn "@)
    ||| starts_with(t, "async fn "@)
    ||| starts_with(t, "pub async fn "@)
    ||| starts_with(t, "function "@)
    ||| starts_with(t, "async function "@)
    ||| starts_with(t, "export function "@)
    ||| starts_with(t, "export default function "@)
    ||| starts_with(t, "export async function "@)
    ||| starts_with(t, "func "@)
    ||| starts_with(t, "impl "@)
    ||| starts_with(t, "struct "@)
    ||| starts_with(t, "pub struct "@)
    ||| starts_with(t, "enum "@)
    ||| starts_with(t, "pub enum "@)
    ||| starts_with(t, "trait "@)
    ||| starts_with(t, "pub trait "@)
    ||| starts_with(t, "interface "@)
    ||| starts_with(t, "type "@)
    ||| starts_with(t, "const "@)
    ||| starts_with(t, "pub const "@)
    ||| (starts_with(t, "pub"@) && contains(t, "fn "@))
    ||| starts_with(t, "private"@)
    ||| starts_with(t, "public"@)
    ||| starts_with(t, "protected"@)
}

/// The outline after the first `k` lines: the text so far, whether a definition's
/// body is being skipped, and the indentation of that definition.
pub open spec fn outline_upto(ls: Seq<Seq<char>>, k: nat) -> (Seq<char>, bool, nat)
    decreases k,
{
    if k == 0 || k > ls.len() {
        (Seq::empty(), false, 0)
    } else {
        let (out, in_body, level) = outline_upto(ls, (k - 1) as nat);
        let line = ls[k - 1];
        let t = trim(line);
        let ci = indent(line);
        if is_def(t) {
            (out + row((k - 1) as nat, line), true, ci)
        } else if in_body {
            if t.len() > 0 && ci <= level {
                (out + row((k - 1) as nat, line), false, level)
            } else {
                (out, true, level)
            }
        } else if t.len() > 0 || (out.len() > 0 && out.last() == '\n') {
            (out + row((k - 1) as nat, line), false, level)
        } else {
            (out, false, level)
        }
    }
}

/// The outline of a file: definitions and top-level lines, bodies left out.
pub open spec fn outline(ls: Seq<Seq<char>>) -> Seq<char> {
    outline_upto(ls, ls.len()).0
}

// ---------------------------------------------------------------------------
// Lemmas
// ---------------------------------------------------------------------------

pub proof fn lemma_utf8_split(s: Seq<char>, n: int)
    requires
        0 <= n <= s.len(),
    ensures
        utf8_size(s) == utf8_size(s.take(n)) + utf8_size(s.skip(n)),
    decreases s.len(),
{
    if n == s.len() {
        assert(s.take(n) =~= s);
        assert(s.skip(n).len() == 0);
    } else {
        lemma_utf8_split(s.drop_last(), n);
        assert(s.drop_last().take(n) =~= s.take(n));
        assert(s.skip(n).drop_last() =~= s.drop_last().skip(n));
        assert(s.skip(n).last() == s.last());
    }
}

proof fn lemma_utf8_push(s: Seq<char>, c: char)
    ensures
        utf8_size(s.push(c)) == utf8_size(s) + utf8_len(c),
{
    assert(s.push(c).drop_last() =~= s);
}

pub proof fn lemma_split_piece_size(s: Seq<char>, sep: char)
    ensures
        forall|k: int|
            0 <= k < split_on(s, sep).len() ==> #[trigger] utf8_size(split_on(s, sep)[k]) <= utf8_size(s),
    decreases s.len(),
{
    if s.len() > 0 {
        lemma_split_piece_size(s.drop_last(), sep);
        lemma_split_nonempty(s.drop_last(), sep);
        let p = split_on(s.drop_last(), sep);
        lemma_utf8_push(p.last(), s.last());
        assert(utf8_size(s) == utf8_size(s.drop_last()) + utf8_len(s.last()));
        assert forall|k: int| 0 <= k < split_on(s, sep).len() implies #[trigger] utf8_size(
            split_on(s, sep)[k],
        ) <= utf8_size(s) by {
            if k < p.len() {
                assert(utf8_size(p[k]) <= utf8_size(s.drop_last()));
            }
        }
    }
}

/// No line of a text takes more bytes than the text.
pub proof fn lemma_line_size(s: Seq<char>)
    ensures
        forall|k: int| 0 <= k < lines_of(s).len() ==> #[trigger] utf8_size(lines_of(s)[k]) <= utf8_size(s),
{
    lemma_split_piece_size(s, '\n');
    lemma_split_nonempty(s, '\n');
    let p = split_on(s, '\n');
    assert forall|k: int| 0 <= k < lines_of(s).len() implies #[trigger] utf8_size(lines_of(s)[k])
        <= utf8_size(s) by {
        if k < p.len() - 1 {
            assert(lines_of(s)[k] == strip_cr(p[k]));
            if p[k].len() > 0 && p[k].last() == '\r' {
                assert(utf8_size(p[k]) == utf8_size(p[k].drop_last()) + utf8_len(p[k].last()));
            }
        } else {
            assert(lines_of(s)[k] == p.last());
        }
    }
}

// ---------------------------------------------------------------------------
// Executable computations
// ---------------------------------------------------------------------------

fn push_hit(out: &mut Vec<Vec<char>>, prefix: &[char], i: usize, line: &[char])
    requires
        i < usize::MAX,
    ensures
        views(final(out)@) == views(old(out)@).push(hit_line(prefix@, i as nat, line@)),
{
    let ghost before = views(out@);
    let mut h: Vec<char> = Vec::new();
    extend(&mut h, prefix);
    push_str(&mut h, ":");
    push_dec(&mut h, i + 1);
    push_str(&mut h, ": ");
    let t = trim_chars(line);
    let cut = take_chars_exec(t.as_slice(), 120);
    extend(&mut h, cut.as_slice());
    let ghost hv = h@;
    out.push(h);
    assert(views(out@) =~= before.push(hv));
}

/// Adds the hits of `ls` to `results` until there are `MAX_RESULTS` of them.
pub fn add_hits(results: &mut Vec<Vec<char>>, prefix: &[char], ls: &Vec<Vec<char>>, term: &[char])
    requires
        old(results)@.len() < MAX_RESULTS,
    ensures
        views(final(results)@) == cap(
            views(old(results)@) + file_hits(prefix@, views(ls@), term@),
            MAX_RESULTS as nat,
        ),
{
    let ghost start = views(results@);
    let ghost lv = views(ls@);
    let mut i: usize = 0;
    while i < ls.len()
        invariant
            i <= ls@.len(),
            lv == views(ls@),
            start == views(old(results)@),
            results@.len() < MAX_RESULTS,
            views(results@) == start + hits_upto(prefix@, lv, term@, i as nat),
        decreases ls@.len() - i,
    {
        if contains_chars(ls[i].as_slice(), term) {
            push_hit(results, prefix, i, ls[i].as_slice());
        }
        i = i + 1;
        if results.len() >= MAX_RESULTS {
            proof {
                lemma_hits_prefix(prefix@, lv, term@, i as nat, lv.len());
                let all = start + file_hits(prefix@, lv, term@);
                let part = hits_upto(prefix@, lv, term@, i as nat);
                assert(views(results@).len() == MAX_RESULTS);
                assert(all.len() >= MAX_RESULTS);
                assert(file_hits(prefix@, lv, term@).take(part.len() as int) == part);
                assert(all.take(MAX_RESULTS as int) =~= views(results@));
                if all.len() == MAX_RESULTS {
                    assert(all.take(MAX_RESULTS as int) =~= all);
                }
                assert(views(results@) == cap(all, MAX_RESULTS as nat));
            }
            return;
        }
    }
    assert(views(results@) == start + file_hits(prefix@, lv, term@));
}

pub proof fn lemma_hits_prefix(prefix: Seq<char>, ls: Seq<Seq<char>>, term: Seq<char>, i: nat, j: nat)
    requires
        i <= j <= ls.len(),
    ensures
        hits_upto(prefix, ls, term, j).take(hits_upto(prefix, ls, term, i).len() as int)
            == hits_upto(prefix, ls, term, i),
        hits_upto(prefix, ls, term, i).len() <= hits_upto(prefix, ls, term, j).len(),
    decreases j - i,
{
    if i < j {
        lemma_hits_prefix(prefix, ls, term, i, (j - 1) as nat);
        let a = hits_upto(prefix, ls, term, i);
        let b = hits_upto(prefix, ls, term, (j - 1) as nat);
        let c = hits_upto(prefix, ls, term, j);
        assert(c.take(b.len() as int) =~= b);
        assert(c.take(a.len() as int) =~= b.take(a.len() as int));
    } else {
        assert(hits_upto(prefix, ls, term, j).take(hits_upto(prefix, ls, term, i).len() as int)
            =~= hits_upto(prefix, ls, term, i));
    }
}

pub proof fn lemma_find_prefix(files: Seq<Seq<char>>, pattern: Seq<char>, workdir: Seq<char>, i: int)
    requires
        0 <= i <= files.len(),
    ensures
        find_hits(files, pattern, workdir).take(find_hits(files.take(i), pattern, workdir).len() as int)
            == find_hits(files.take(i), pattern, workdir),
    decreases files.len() - i,
{
    if i < files.len() {
        lemma_find_prefix(files.drop_last(), pattern, workdir, i);
        assert(files.drop_last().take(i) =~= files.take(i));
        let a = find_hits(files.take(i), pattern, workdir);
        let b = find_hits(files.drop_last(), pattern, workdir);
        let c = find_hits(files, pattern, workdir);
        lemma_find_len(files.drop_last(), pattern, workdir, i);
        assert(c.take(b.len() as int) =~= b);
        assert(c.take(a.len() as int) =~= b.take(a.len() as int));
    } else {
        assert(files.take(i) =~= files);
        assert(find_hits(files, pattern, workdir).take(find_hits(files, pattern, workdir).len() as int)
            =~= find_hits(files, pattern, workdir));
    }
}

pub proof fn lemma_find_len(files: Seq<Seq<char>>, pattern: Seq<char>, workdir: Seq<char>, i: int)
    requires
        0 <= i <= files.len(),
    ensures
        find_hits(files.take(i), pattern, workdir).len() <= find_hits(files, pattern, workdir).len(),
    decreases files.len() - i,
{
    if i < files.len() {
        lemma_find_len(files.drop_last(), pattern, workdir, i);
        assert(files.drop_last().take(i) =~= files.take(i));
    } else {
        assert(files.take(i) =~= files);
    }
}

/// The files among `files` whose name matches `pattern`, at most `MAX_RESULTS` of them.
pub fn find_matches(files: &Vec<Vec<char>>, pattern: &[char], workdir: &[char]) -> (r: Vec<Vec<char>>)
    ensures
        views(r@) == cap(find_hits(views(files@), pattern@, workdir@), MAX_RESULTS as nat),
{
    let ghost fv = views(files@);
    let mut out: Vec<Vec<char>> = Vec::new();
    let mut i: usize = 0;
    assert(fv.take(0) =~= Seq::<Seq<char>>::empty());
    while i < files.len()
        invariant
            i <= files@.len(),
            fv == views(files@),
            out@.len() < MAX_RESULTS,
            views(out@) == find_hits(fv.take(i as int), pattern@, workdir@),
        decreases files@.len() - i,
    {
        let ghost before = views(out@);
        let name = file_name_exec(files[i].as_slice());
        let ok = crate::glob::glob_match_inner(pattern, name.as_slice());
        proof {
            assert(fv.take(i + 1).drop_last() =~= fv.take(i as int));
            assert(fv.take(i + 1).last() == files@[i as int]@);
        }
        if ok {
            let rel = strip_display_exec(files[i].as_slice(), workdir);
            let ghost rv = rel@;
            out.push(rel);
            assert(views(out@) =~= before.push(rv));
        }
        i = i + 1;
        if out.len() >= MAX_RESULTS {
            proof {
                lemma_find_prefix(fv, pattern@, workdir@, i as int);
                lemma_find_len(fv, pattern@, workdir@, i as int);
                let all = find_hits(fv, pattern@, workdir@);
                assert(views(out@).len() == MAX_RESULTS);
                assert(all.take(MAX_RESULTS as int) =~= views(out@));
                if all.len() == MAX_RESULTS {
                    assert(all.take(MAX_RESULTS as int) =~= all);
                }
            }
            return out;
        }
    }
    assert(fv.take(i as int) =~= fv);
    out
}

/// Whether a directory search reads the file at `path`.
pub fn searchable_exec(path: &[char]) -> (r: bool)
    ensures
        r == searchable(path@),
{
    let name = file_name_exec(path);
    match extension_exec(name.as_slice()) {
        Some(e) => {
            let e = e.as_slice();
            !(has_exact(e, "png") || has_exact(e, "jpg") || has_exact(e, "jpeg") || has_exact(
                e,
                "gif",
            ) || has_exact(e, "ico") || has_exact(e, "woff") || has_exact(e, "woff2")
                || has_exact(e, "ttf") || has_exact(e, "eot") || has_exact(e, "so") || has_exact(
                e,
                "dylib",
            ) || has_exact(e, "dll") || has_exact(e, "exe") || has_exact(e, "o") || has_exact(
                e,
                "a",
            ) || has_exact(e, "zip") || has_exact(e, "tar") || has_exact(e, "gz") || has_exact(
                e,
                "bz2",
            ) || has_exact(e, "xz"))
        },
        None => true,
    }
}

fn has_exact(e: &[char], lit: &str) -> (r: bool)
    ensures
        r == (e@ == lit@),
{
    let l = crate::text::chars_of(lit);
    crate::text::same(e, l.as_slice())
}

/// The number of bytes of `c` in UTF-8.
fn utf8_width(c: char) -> (r: usize)
    ensures
        r == utf8_len(c),
{
    let u = c as u32;
    if u < 0x80 {
        1
    } else if u < 0x800 {
        2
    } else if u < 0x10000 {
        3
    } else {
        4
    }
}

/// Whether the UTF-8 encoding of `v` has at most `usize::MAX` bytes.
pub fn utf8_fits(v: &[char]) -> (r: bool)
    ensures
        r == (utf8_size(v@) <= usize::MAX),
{
    let mut total: usize = 0;
    let mut i: usize = 0;
    while i < v.len()
        invariant
            i <= v@.len(),
            total == utf8_size(v@.take(i as int)),
        decreases v@.len() - i,
    {
        let w = utf8_width(v[i]);
        proof {
            lemma_utf8_push(v@.take(i as int), v@[i as int]);
            assert(v@.take(i as int).push(v@[i as int]) =~= v@.take(i + 1));
            lemma_utf8_split(v@, i + 1);
        }
        if w > usize::MAX - total {
            return false;
        }
        total = total + w;
        i = i + 1;
    }
    assert(v@.take(i as int) =~= v@);
    true
}

/// The width in bytes of the indentation of `line`.
fn indent_exec(line: &[char]) -> (r: usize)
    requires
        utf8_size(line@) <= usize::MAX,
    ensures
        r == indent(line@),
{
    let n = leading_ws(line);
    let mut bytes: usize = 0;
    let mut i: usize = 0;
    while i < n
        invariant
            n <= line@.len(),
            utf8_size(line@) <= usize::MAX,
            i <= n,
            bytes == utf8_size(line@.take(i as int)),
        decreases n - i,
    {
        let w = utf8_width(line[i]);
        proof {
            lemma_utf8_push(line@.take(i as int), line@[i as int]);
            assert(line@.take(i as int).push(line@[i as int]) =~= line@.take(i + 1));
            lemma_utf8_split(line@, i + 1);
        }
        bytes = bytes + w;
        i = i + 1;
    }
    proof {
        lemma_utf8_split(line@, n as int);
    }
    bytes
}

fn is_def_exec(t: &[char]) -> (r: bool)
    ensures
        r == is_def(t@),
{
    has_prefix(t, "def ") || has_prefix(t, "class ") || has_prefix(t, "fn ") || has_prefix(
        t,
        "pub fn ",
    ) || has_prefix(t, "pub(crate) fn ") || has_prefix(t, "async fn ") || has_prefix(
        t,
        "pub async fn ",
    ) || has_prefix(t, "function ") || has_prefix(t, "async function ") || has_prefix(
        t,
        "export function ",
    ) || has_prefix(t, "export default function ") || has_prefix(t, "export async function ")
        || has_prefix(t, "func ") || has_prefix(t, "impl ") || has_prefix(t, "struct ")
        || has_prefix(t, "pub struct ") || has_prefix(t, "enum ") || has_prefix(t, "pub enum ")
        || has_prefix(t, "trait ") || has_prefix(t, "pub trait ") || has_prefix(t, "interface ")
        || has_prefix(t, "type ") || has_prefix(t, "const ") || has_prefix(t, "pub const ") || (
    has_prefix(t, "pub") && contains_str(t, "fn ")) || has_prefix(t, "private") || has_prefix(
        t,
        "public",
    ) || has_prefix(t, "protected")
}

/// The outline of the lines `ls`.
pub fn outline_exec(ls: &Vec<Vec<char>>) -> (r: Vec<char>)
    requires
        forall|k: int| 0 <= k < ls@.len() ==> #[trigger] utf8_size(ls@[k]@) <= usize::MAX,
    ensures
        r@ == outline(views(ls@)),
{
    let ghost lv = views(ls@);
    let mut out: Vec<char> = Vec::new();
    let mut in_body = false;
    let mut level: usize = 0;
    let mut i: usize = 0;
    while i < ls.len()
        invariant
            i <= ls@.len(),
            lv == views(ls@),
            forall|k: int| 0 <= k < ls@.len() ==> #[trigger] utf8_size(ls@[k]@) <= usize::MAX,
            outline_upto(lv, i as nat) == (out@, in_body, level as nat),
        decreases ls@.len() - i,
    {
        let line = ls[i].as_slice();
        assert(line@ == lv[i as int]);
        let t = trim_chars(line);
        let ci = indent_exec(line);
        let def = is_def_exec(t.as_slice());
        if def {
            push_row(&mut out, i, line);
            in_body = true;
            level = ci;
        } else if in_body {
            if t.len() > 0 && ci <= level {
                in_body = false;
                push_row(&mut out, i, line);
            }
        } else {
            let ends_nl = out.len() > 0 && out[out.len() - 1] == '\n';
            if t.len() > 0 || ends_nl {
                push_row(&mut out, i, line);
            }
        }
        i = i + 1;
    }
    out
}

fn push_row(out: &mut Vec<char>, i: usize, line: &[char])
    requires
        i < usize::MAX,
    ensures
        final(out)@ == old(out)@ + row(i as nat, line@),
{
    crate::text::push_dec_padded4(out, i + 1);
    push_str(out, " | ");
    extend(out, line);
    push_str(out, "\n");
}

} // verus!
