//! The editor state: the workspace, the open file as lines, the first line of
//! the displayed window, and the workspace guard.

use vstd::prelude::*;
use crate::text::{
    views, dec, pad_left, chars_of, string_of, push_str, extend, push_dec, push_dec_padded4,
};
use crate::paths::{
    Comp, PathPart, components, has_root, normalize, is_prefix, render, parts_view, part_view,
    components_of, copy_part, normalize_parts, parts_prefix, render_parts,
};

verus! {

/// How many lines the window shows.
pub const WINDOW_SIZE: usize = 100;

/// The mathematical state of an editor.
pub struct EditorView {
    /// The workspace directory as it was given.
    pub workdir: Seq<char>,
    /// The name under which the current file was opened, if one is open.
    pub current_file: Option<Seq<char>>,
    /// The lines of the current file.
    pub lines: Seq<Seq<char>>,
    /// The index of the first line in the window.
    pub window_start: usize,
    /// Whether paths outside the workspace are allowed.
    pub allow_outside: bool,
}

/// Editor state: tracks the open file and the window shown of it.
pub struct EditorState {
    workdir: Vec<char>,
    current_file: Option<Vec<char>>,
    current_lines: Vec<Vec<char>>,
    window_start: usize,
    allow_outside: bool,
}

pub open spec fn opt_view(o: Option<Vec<char>>) -> Option<Seq<char>> {
    match o {
        Some(v) => Some(v@),
        None => None,
    }
}

impl View for EditorState {
    type V = EditorView;

    closed spec fn view(&self) -> EditorView {
        EditorView {
            workdir: self.workdir@,
            current_file: opt_view(self.current_file),
            lines: views(self.current_lines@),
            window_start: self.window_start,
            allow_outside: self.allow_outside,
        }
    }
}

// ---------------------------------------------------------------------------
// Specifications
// ---------------------------------------------------------------------------

/// The components of `path` taken relative to the workspace (absolute paths stand alone).
pub open spec fn joined(workdir: Seq<char>, path: Seq<char>) -> Seq<Comp> {
    if has_root(path) {
        components(path)
    } else {
        components(workdir) + components(path)
    }
}

/// The lexically normalized components that `path` names.
pub open spec fn canonical(workdir: Seq<char>, path: Seq<char>) -> Seq<Comp> {
    normalize(joined(workdir, path))
}

/// Whether a path whose normalized components are `canon` is inside the workspace.
pub open spec fn inside(workdir: Seq<char>, canon: Seq<Comp>) -> bool {
    is_prefix(components(workdir), canon)
}

/// The refusal for a path outside the workspace.
pub open spec fn denied_msg(path: Seq<char>, workdir: Seq<char>) -> Seq<char> {
    "Access denied: '"@ + path + "' is outside workspace '"@ + workdir
        + "'. Use allow_outside_workspace tool to enable access."@
}

/// The path the editor uses for `path`, or the refusal.
pub open spec fn resolve_spec(m: EditorView, path: Seq<char>) -> Result<Seq<char>, Seq<char>> {
    let canon = canonical(m.workdir, path);
    if !m.allow_outside && !inside(m.workdir, canon) {
        Err(denied_msg(path, m.workdir))
    } else {
        Ok(render(canon))
    }
}

/// The directory holding the file that `path` names, if it has one.
pub open spec fn parent_spec(m: EditorView, path: Seq<char>) -> Option<Seq<char>> {
    let canon = canonical(m.workdir, path);
    if canon.len() > 0 && canon.last() is Normal {
        Some(render(canon.drop_last()))
    } else {
        None
    }
}

/// One displayed line: its number right-aligned in four columns.
pub open spec fn row(i: nat, line: Seq<char>) -> Seq<char> {
    pad_left(dec(i + 1), 4) + " | "@ + line + "\n"@
}

/// The displayed lines `from..to`.
pub open spec fn rows(ls: Seq<Seq<char>>, from: nat, to: nat) -> Seq<char>
    decreases to - from,
{
    if to <= from {
        Seq::empty()
    } else {
        rows(ls, from, (to - 1) as nat) + row((to - 1) as nat, ls[to - 1])
    }
}

pub open spec fn min_nat(a: nat, b: nat) -> nat {
    if a <= b {
        a
    } else {
        b
    }
}

/// The end (exclusive) of the window.
pub open spec fn window_end(m: EditorView) -> nat {
    min_nat((m.window_start + WINDOW_SIZE) as nat, m.lines.len())
}

/// The window: up to `WINDOW_SIZE` numbered lines from `window_start` and a summary.
pub open spec fn window_text_spec(m: EditorView) -> Seq<char> {
    if m.lines.len() == 0 {
        "(empty file)"@
    } else {
        rows(m.lines, m.window_start as nat, window_end(m)) + "("@ + dec(m.lines.len()) + " lines total, showing "@
            + dec((m.window_start + 1) as nat) + "-"@ + dec(window_end(m)) + ")"@
    }
}

/// The window can be computed without overflow (the end of a full window fits `usize`).
pub open spec fn window_fits(m: EditorView) -> bool {
    m.lines.len() == 0 || m.window_start + WINDOW_SIZE <= usize::MAX
}

/// `a - b`, or 0 when `b > a`.
pub open spec fn sat_sub(a: usize, b: usize) -> usize {
    if a >= b {
        (a - b) as usize
    } else {
        0
    }
}

/// The window start that centres line `ln` (counted from 1).
pub open spec fn centred_start(ln: usize) -> usize {
    sat_sub(sat_sub(ln, 1), WINDOW_SIZE / 2)
}

// ---------------------------------------------------------------------------
// Executable operations
// ---------------------------------------------------------------------------

impl EditorState {
    /// A fresh editor over the workspace `workdir`: no file open, window at the
    /// top, paths outside the workspace refused.
    pub fn new(workdir: String) -> (r: EditorState)
        ensures
            r@ == (EditorView {
                workdir: workdir@,
                current_file: None,
                lines: Seq::empty(),
                window_start: 0,
                allow_outside: false,
            }),
    {
        let r = EditorState {
            workdir: chars_of(workdir.as_str()),
            current_file: None,
            current_lines: Vec::new(),
            window_start: 0,
            allow_outside: false,
        };
        assert(r@.lines =~= Seq::<Seq<char>>::empty());
        r
    }

    /// The workspace directory.
    pub fn workdir(&self) -> (r: String)
        ensures
            r@ == self@.workdir,
    {
        string_of(self.workdir.as_slice())
    }

    /// The name of the open file, if any.
    pub fn current_file(&self) -> (r: Option<String>)
        ensures
            match r {
                Some(s) => self@.current_file == Some(s@),
                None => self@.current_file is None,
            },
    {
        match &self.current_file {
            Some(f) => Some(string_of(f.as_slice())),
            None => None,
        }
    }

    /// The number of lines of the open file.
    pub fn line_count(&self) -> (r: usize)
        ensures
            r == self@.lines.len(),
    {
        self.current_lines.len()
    }

    /// Line `i` (from 0) of the open file.
    pub fn line(&self, i: usize) -> (r: String)
        requires
            i < self@.lines.len(),
        ensures
            r@ == self@.lines[i as int],
    {
        string_of(self.current_lines[i].as_slice())
    }

    /// The index of the first line in the window.
    pub fn window_start(&self) -> (r: usize)
        ensures
            r == self@.window_start,
    {
        self.window_start
    }

    /// Whether paths outside the workspace are allowed.
    pub fn allow_outside(&self) -> (r: bool)
        ensures
            r == self@.allow_outside,
    {
        self.allow_outside
    }

    pub(crate) fn workdir_chars(&self) -> (r: &Vec<char>)
        ensures
            r@ == self@.workdir,
    {
        &self.workdir
    }

    pub(crate) fn lines_ref(&self) -> (r: &Vec<Vec<char>>)
        ensures
            views(r@) == self@.lines,
    {
        &self.current_lines
    }

    pub(crate) fn file_ref(&self) -> (r: &Option<Vec<char>>)
        ensures
            opt_view(*r) == self@.current_file,
    {
        &self.current_file
    }

    pub(crate) fn set_window_start(&mut self, w: usize)
        ensures
            final(self)@ == (EditorView { window_start: w, ..old(self)@ }),
    {
        self.window_start = w;
    }

    pub(crate) fn set_allow_outside(&mut self, b: bool)
        ensures
            final(self)@ == (EditorView { allow_outside: b, ..old(self)@ }),
    {
        self.allow_outside = b;
    }

    pub(crate) fn set_file(&mut self, name: Vec<char>, lines: Vec<Vec<char>>, w: usize)
        ensures
            final(self)@ == (EditorView {
                current_file: Some(name@),
                lines: views(lines@),
                window_start: w,
                ..old(self)@
            }),
    {
        self.current_file = Some(name);
        self.current_lines = lines;
        self.window_start = w;
    }

    pub(crate) fn set_lines(&mut self, lines: Vec<Vec<char>>)
        ensures
            final(self)@ == (EditorView { lines: views(lines@), ..old(self)@ }),
    {
        self.current_lines = lines;
    }

    /// The normalized components that `path` names.
    pub(crate) fn canonical_parts(&self, path: &[char]) -> (r: Vec<PathPart>)
        ensures
            parts_view(r@) == canonical(self@.workdir, path@),
    {
        let p = components_of(path);
        let mut all: Vec<PathPart>;
        if path.len() > 0 && path[0] == '/' {
            all = p;
        } else {
            all = components_of(self.workdir.as_slice());
            let ghost w = parts_view(all@);
            let mut i: usize = 0;
            while i < p.len()
                invariant
                    i <= p@.len(),
                    parts_view(all@) == w + parts_view(p@).take(i as int),
                decreases p@.len() - i,
            {
                let ghost before = parts_view(all@);
                all.push(copy_part(&p[i]));
                i = i + 1;
                assert(parts_view(all@) =~= before.push(part_view(p@[i - 1])));
                assert(parts_view(p@).take(i as int) =~= parts_view(p@).take(i - 1).push(
                    part_view(p@[i - 1]),
                ));
            }
            assert(parts_view(p@).take(i as int) =~= parts_view(p@));
        }
        normalize_parts(&all)
    }

    /// Whether normalized components are inside the workspace.
    pub(crate) fn inside_exec(&self, canon: &Vec<PathPart>) -> (r: bool)
        ensures
            r == inside(self@.workdir, parts_view(canon@)),
    {
        let w = components_of(self.workdir.as_slice());
        parts_prefix(&w, canon)
    }

    fn denied(&self, path: &[char]) -> (r: Vec<char>)
        ensures
            r@ == denied_msg(path@, self@.workdir),
    {
        let mut out: Vec<char> = Vec::new();
        push_str(&mut out, "Access denied: '");
        extend(&mut out, path);
        push_str(&mut out, "' is outside workspace '");
        extend(&mut out, self.workdir.as_slice());
        push_str(&mut out, "'. Use allow_outside_workspace tool to enable access.");
        out
    }

    /// Resolves `path` against the workspace and folds `.` and `..`; refuses a
    /// path outside the workspace unless that is allowed.
    pub fn resolve(&self, path: &str) -> (r: Result<String, String>)
        ensures
            match r {
                Ok(s) => resolve_spec(self@, path@) == Ok::<Seq<char>, Seq<char>>(s@),
                Err(e) => resolve_spec(self@, path@) == Err::<Seq<char>, Seq<char>>(e@),
            },
    {
        let p = chars_of(path);
        match self.resolve_chars(p.as_slice()) {
            Ok(v) => Ok(string_of(v.as_slice())),
            Err(e) => Err(string_of(e.as_slice())),
        }
    }

    pub(crate) fn resolve_chars(&self, path: &[char]) -> (r: Result<Vec<char>, Vec<char>>)
        ensures
            match r {
                Ok(v) => resolve_spec(self@, path@) == Ok::<Seq<char>, Seq<char>>(v@),
                Err(e) => resolve_spec(self@, path@) == Err::<Seq<char>, Seq<char>>(e@),
            },
    {
        let canon = self.canonical_parts(path);
        if !self.allow_outside && !self.inside_exec(&canon) {
            return Err(self.denied(path));
        }
        assert(parts_view(canon@).skip(0) =~= parts_view(canon@));
        Ok(render_parts(&canon, 0))
    }

    /// The resolved path and the directory that holds it.
    pub(crate) fn resolve_with_parent(&self, path: &[char]) -> (r: Result<
        (Vec<char>, Option<Vec<char>>),
        Vec<char>,
    >)
        ensures
            match r {
                Ok((v, d)) => resolve_spec(self@, path@) == Ok::<Seq<char>, Seq<char>>(v@)
                    && opt_view(d) == parent_spec(self@, path@),
                Err(e) => resolve_spec(self@, path@) == Err::<Seq<char>, Seq<char>>(e@),
            },
    {
        let canon = self.canonical_parts(path);
        if !self.allow_outside && !self.inside_exec(&canon) {
            return Err(self.denied(path));
        }
        assert(parts_view(canon@).skip(0) =~= parts_view(canon@));
        let full = render_parts(&canon, 0);
        let n = canon.len();
        let is_normal = n > 0 && match &canon[n - 1] {
            PathPart::Normal(_) => true,
            _ => false,
        };
        if is_normal {
            let mut up: Vec<PathPart> = Vec::new();
            let mut i: usize = 0;
            while i < n - 1
                invariant
                    n == canon@.len(),
                    n > 0,
                    i <= n - 1,
                    parts_view(up@) == parts_view(canon@).take(i as int),
                decreases n - 1 - i,
            {
                let ghost before = parts_view(up@);
                up.push(copy_part(&canon[i]));
                i = i + 1;
                assert(parts_view(up@) =~= before.push(part_view(canon@[i - 1])));
                assert(parts_view(canon@).take(i as int) =~= parts_view(canon@).take(i - 1).push(
                    part_view(canon@[i - 1]),
                ));
            }
            assert(parts_view(up@).skip(0) =~= parts_view(canon@).drop_last());
            let dir = render_parts(&up, 0);
            Ok((full, Some(dir)))
        } else {
            Ok((full, None))
        }
    }

    /// The window of the open file with line numbers and a summary line.
    pub fn window_text(&self) -> (r: String)
        requires
            window_fits(self@),
        ensures
            r@ == window_text_spec(self@),
    {
        let v = self.window_chars();
        string_of(v.as_slice())
    }

    pub(crate) fn window_chars(&self) -> (r: Vec<char>)
        requires
            window_fits(self@),
        ensures
            r@ == window_text_spec(self@),
    {
        let mut out: Vec<char> = Vec::new();
        if self.current_lines.len() == 0 {
            push_str(&mut out, "(empty file)");
            return out;
        }
        let total = self.current_lines.len();
        let s = self.window_start + WINDOW_SIZE;
        let end = if s < total {
            s
        } else {
            total
        };
        let mut i = self.window_start;
        if i < end {
            while i < end
                invariant
                    self.window_start <= i <= end,
                    end <= self@.lines.len(),
                    total == self@.lines.len(),
                    out@ == rows(self@.lines, self@.window_start as nat, i as nat),
                decreases end - i,
            {
                push_dec_padded4(&mut out, i + 1);
                push_str(&mut out, " | ");
                extend(&mut out, self.current_lines[i].as_slice());
                push_str(&mut out, "\n");
                i = i + 1;
            }
        } else {
            assert(rows(self@.lines, self@.window_start as nat, end as nat) =~= Seq::<char>::empty());
            assert(out@ =~= rows(self@.lines, self@.window_start as nat, end as nat));
        }
        assert(end == window_end(self@));
        push_str(&mut out, "(");
        push_dec(&mut out, total);
        push_str(&mut out, " lines total, showing ");
        push_dec(&mut out, self.window_start + 1);
        push_str(&mut out, "-");
        push_dec(&mut out, end);
        push_str(&mut out, ")");
        out
    }
}

} // verus!
