//! The tools as a state machine over the editor state.
//!
//! A tool call either answers at once or asks for one file-system operation;
//! the caller performs it and resumes the call with its outcome, until an
//! answer comes. The file system itself stays with the caller.

use vstd::prelude::*;
use crate::text::{dec, join, lines_of, replace_all, replace_first, utf8_size};
use crate::args::{arg_str, arg_uint, arg_bool};
use crate::paths::strip_display;
use crate::editor::{
    EditorView, resolve_spec, parent_spec, window_text_spec, window_fits, sat_sub, centred_start,
    WINDOW_SIZE,
};
use crate::search::{cap, find_hits, file_hits, searchable, outline, MAX_RESULTS};

verus! {

/// What a pending tool call waits for, and what it has gathered.
pub enum JobView {
    Open { path: Seq<char>, line: Option<usize>, full: Seq<char> },
    CreateDir { filename: Seq<char>, full: Seq<char>, dir: Seq<char> },
    CreateFile { filename: Seq<char>, full: Seq<char> },
    WriteDir { path: Seq<char>, content: Seq<char>, full: Seq<char>, dir: Seq<char> },
    WriteCheck { path: Seq<char>, content: Seq<char>, full: Seq<char> },
    WriteFile { path: Seq<char>, content: Seq<char>, full: Seq<char>, existed: bool },
    FindFile { pattern: Seq<char>, root: Seq<char> },
    SearchList { term: Seq<char>, root: Seq<char> },
    SearchRead {
        term: Seq<char>,
        root: Seq<char>,
        files: Seq<Seq<char>>,
        next: nat,
        results: Seq<Seq<char>>,
    },
    SearchFile { term: Seq<char>, fname: Seq<char>, full: Seq<char> },
    Edit { fname: Seq<char>, full: Seq<char>, content: Seq<char> },
    Insert { fname: Seq<char>, full: Seq<char>, line: Option<usize>, content: Seq<char> },
    Filemap { file_path: Seq<char>, full: Seq<char> },
}

/// A file-system operation.
pub enum RequestView {
    /// Read the file as text.
    Read(Seq<char>),
    /// Create the directory and its missing parents.
    MakeDirs(Seq<char>),
    /// Tell whether the path exists.
    Exists(Seq<char>),
    /// Write the text as the whole file, creating or truncating it.
    Write(Seq<char>, Seq<char>),
    /// List the files below the directory, at most ten levels down, in walk order.
    ListFiles(Seq<char>),
}

/// What a file-system operation came to.
pub enum OutcomeView {
    Text(Seq<char>),
    Failed(Seq<char>),
    Done,
    Exists(bool),
    Files(Seq<Seq<char>>),
}

/// The next step of a tool call.
pub enum StepView {
    Reply(Seq<char>),
    Io(JobView),
}

/// How a tool call goes on: it is over, having succeeded with an answer or
/// failed with an error, or it waits for a file-system operation.
pub enum Next {
    Done(Result<Seq<char>, Seq<char>>),
    Wait(JobView),
}

/// The text a finished call answers with: the answer, or the error behind the
/// `ERROR: ` marker.
pub open spec fn answer_text(r: Result<Seq<char>, Seq<char>>) -> Seq<char> {
    match r {
        Ok(s) => s,
        Err(e) => err(e),
    }
}

/// The step that the caller sees.
pub open spec fn step_of(n: Next) -> StepView {
    match n {
        Next::Done(r) => StepView::Reply(answer_text(r)),
        Next::Wait(j) => StepView::Io(j),
    }
}

pub open spec fn stepped(p: (EditorView, Next)) -> (EditorView, StepView) {
    (p.0, step_of(p.1))
}

/// The operation a pending call asks for.
pub open spec fn request_of(j: JobView) -> RequestView {
    match j {
        JobView::Open { full, .. } => RequestView::Read(full),
        JobView::CreateDir { dir, .. } => RequestView::MakeDirs(dir),
        JobView::CreateFile { full, .. } => RequestView::Write(full, Seq::empty()),
        JobView::WriteDir { dir, .. } => RequestView::MakeDirs(dir),
        JobView::WriteCheck { full, .. } => RequestView::Exists(full),
        JobView::WriteFile { full, content, .. } => RequestView::Write(full, content),
        JobView::FindFile { root, .. } => RequestView::ListFiles(root),
        JobView::SearchList { root, .. } => RequestView::ListFiles(root),
        JobView::SearchRead { files, next, .. } => RequestView::Read(files[next as int]),
        JobView::SearchFile { full, .. } => RequestView::Read(full),
        JobView::Edit { full, content, .. } => RequestView::Write(full, content),
        JobView::Insert { full, content, .. } => RequestView::Write(full, content),
        JobView::Filemap { full, .. } => RequestView::Read(full),
    }
}

/// The outcome is of the kind the request gives.
pub open spec fn accepts(r: RequestView, o: OutcomeView) -> bool {
    match r {
        RequestView::Read(_) => o is Text || o is Failed,
        RequestView::MakeDirs(_) => o is Done || o is Failed,
        RequestView::Exists(_) => o is Exists,
        RequestView::Write(_, _) => o is Done || o is Failed,
        RequestView::ListFiles(_) => o is Files,
    }
}

// ---------------------------------------------------------------------------
// Texts
// ---------------------------------------------------------------------------

/// A reply that reports an error.
pub open spec fn err(e: Seq<char>) -> Seq<char> {
    "ERROR: "@ + e
}

pub open spec fn missing(name: Seq<char>) -> Seq<char> {
    "missing required parameter: "@ + name
}

pub open spec fn no_file() -> Seq<char> {
    "No file is currently open"@
}

/// `[File: name (what)]` and a line break.
pub open spec fn file_header(name: Seq<char>, what: Seq<char>) -> Seq<char> {
    "[File: "@ + name + " ("@ + what + ")]\n"@
}

pub open spec fn cannot(verb: Seq<char>, full: Seq<char>, e: Seq<char>) -> Seq<char> {
    "Cannot "@ + verb + " "@ + full + ": "@ + e
}

pub open spec fn submitted() -> Seq<char> {
    "\u{2705} Submitted successfully."@
}

pub open spec fn allow_reply(allow: bool, workdir: Seq<char>) -> Seq<char> {
    if allow {
        "\u{2705} Access outside workspace enabled. You can now use absolute paths and paths outside '"@
            + workdir + "'."@
    } else {
        "\u{1f512} Access restricted to workspace '"@ + workdir + "' only."@
    }
}

pub open spec fn find_reply(pattern: Seq<char>, root: Seq<char>, res: Seq<Seq<char>>, workdir: Seq<char>) -> Seq<char> {
    if res.len() == 0 {
        "No files found matching '"@ + pattern + "' in "@ + strip_display(root, workdir)
    } else {
        "Found "@ + dec(res.len()) + " file(s):\n"@ + join(res, seq!['\n'])
    }
}

pub open spec fn search_dir_reply(term: Seq<char>, root: Seq<char>, res: Seq<Seq<char>>, workdir: Seq<char>) -> Seq<char> {
    if res.len() == 0 {
        "No matches found for '"@ + term + "' in "@ + strip_display(root, workdir)
    } else {
        "Found "@ + dec(res.len()) + " match(es):\n"@ + join(res, seq!['\n'])
    }
}

pub open spec fn search_file_reply(term: Seq<char>, fname: Seq<char>, ls: Seq<Seq<char>>) -> Seq<char> {
    let res = cap(file_hits(fname, ls, term), MAX_RESULTS as nat);
    if res.len() == 0 {
        "No matches found for '"@ + term + "' in "@ + fname
    } else {
        "Found "@ + dec(res.len()) + " match(es) in "@ + fname + ":\n"@ + join(res, seq!['\n'])
    }
}

// ---------------------------------------------------------------------------
// State changes
// ---------------------------------------------------------------------------

pub open spec fn opt_usize(o: Option<u64>) -> Option<usize> {
    match o {
        Some(n) => Some(n as usize),
        None => None,
    }
}

/// The window start for an optional line to centre.
pub open spec fn start_for(line: Option<usize>) -> usize {
    match line {
        Some(ln) => centred_start(ln),
        None => 0,
    }
}

/// The editor with `name` open as `ls` and the window at `w`.
pub open spec fn opened(m: EditorView, name: Seq<char>, ls: Seq<Seq<char>>, w: usize) -> EditorView {
    EditorView { current_file: Some(name), lines: ls, window_start: w, ..m }
}

pub open spec fn with_start(m: EditorView, w: usize) -> EditorView {
    EditorView { window_start: w, ..m }
}

pub open spec fn with_lines(m: EditorView, ls: Seq<Seq<char>>) -> EditorView {
    EditorView { lines: ls, ..m }
}

/// The window start after scrolling down.
pub open spec fn scrolled_down(m: EditorView) -> usize {
    let max = sat_sub(m.lines.len() as usize, WINDOW_SIZE);
    if m.window_start + WINDOW_SIZE <= max {
        (m.window_start + WINDOW_SIZE) as usize
    } else {
        max
    }
}

/// The lines after inserting `nl` at line `line` (clamped to the end), or at the end.
pub open spec fn inserted(ls: Seq<Seq<char>>, nl: Seq<Seq<char>>, line: Option<usize>) -> Seq<Seq<char>> {
    match line {
        Some(ln) => {
            let pos = if ln <= ls.len() {
                ln as int
            } else {
                ls.len() as int
            };
            ls.take(pos) + nl + ls.skip(pos)
        },
        None => ls + nl,
    }
}

/// The call is over and succeeded with the answer `text`.
pub open spec fn done(m: EditorView, text: Seq<char>) -> (EditorView, Next) {
    (m, Next::Done(Ok(text)))
}

/// The call is over and failed with the error `e`.
pub open spec fn failed(m: EditorView, e: Seq<char>) -> (EditorView, Next) {
    (m, Next::Done(Err(e)))
}

/// The call waits for the operation of `j`.
pub open spec fn wait(m: EditorView, j: JobView) -> (EditorView, Next) {
    (m, Next::Wait(j))
}

// ---------------------------------------------------------------------------
// Starting a tool call
// ---------------------------------------------------------------------------

pub open spec fn open_next(m: EditorView, a: Seq<(Seq<char>, crate::args::ArgModel)>) -> (EditorView, Next) {
    match arg_str(a, "path"@) {
        None => failed(m, missing("path"@)),
        Some(path) => match resolve_spec(m, path) {
            Err(e) => failed(m, e),
            Ok(full) => wait(
                m,
                JobView::Open { path, line: opt_usize(arg_uint(a, "line_number"@)), full },
            ),
        },
    }
}

pub open spec fn goto_next(m: EditorView, a: Seq<(Seq<char>, crate::args::ArgModel)>) -> (EditorView, Next) {
    match arg_uint(a, "line_number"@) {
        None => failed(m, missing("line_number"@)),
        Some(n) => match m.current_file {
            None => failed(m, no_file()),
            Some(f) => {
                let ln = n as usize;
                let m2 = with_start(m, centred_start(ln));
                done(m2, file_header(f, "goto line "@ + dec(ln as nat)) + window_text_spec(m2))
            },
        },
    }
}

pub open spec fn create_next(m: EditorView, a: Seq<(Seq<char>, crate::args::ArgModel)>) -> (EditorView, Next) {
    match arg_str(a, "filename"@) {
        None => failed(m, missing("filename"@)),
        Some(f) => match resolve_spec(m, f) {
            Err(e) => failed(m, e),
            Ok(full) => match parent_spec(m, f) {
                Some(dir) => wait(m, JobView::CreateDir { filename: f, full, dir }),
                None => wait(m, JobView::CreateFile { filename: f, full }),
            },
        },
    }
}

pub open spec fn write_next(m: EditorView, a: Seq<(Seq<char>, crate::args::ArgModel)>) -> (EditorView, Next) {
    match arg_str(a, "path"@) {
        None => failed(m, missing("path"@)),
        Some(path) => match arg_str(a, "content"@) {
            None => failed(m, missing("content"@)),
            Some(content) => match resolve_spec(m, path) {
                Err(e) => failed(m, e),
                Ok(full) => match parent_spec(m, path) {
                    Some(dir) => wait(m, JobView::WriteDir { path, content, full, dir }),
                    None => wait(m, JobView::WriteCheck { path, content, full }),
                },
            },
        },
    }
}

pub open spec fn scroll_up_next(m: EditorView) -> (EditorView, Next) {
    match m.current_file {
        None => failed(m, no_file()),
        Some(f) => {
            let m2 = with_start(m, sat_sub(m.window_start, WINDOW_SIZE));
            done(m2, file_header(f, "scroll up"@) + window_text_spec(m2))
        },
    }
}

pub open spec fn scroll_down_next(m: EditorView) -> (EditorView, Next) {
    match m.current_file {
        None => failed(m, no_file()),
        Some(f) => {
            let m2 = with_start(m, scrolled_down(m));
            done(m2, file_header(f, "scroll down"@) + window_text_spec(m2))
        },
    }
}

/// Where a search starts: the given directory, resolved, or the workspace.
pub open spec fn search_root(m: EditorView, a: Seq<(Seq<char>, crate::args::ArgModel)>) -> Result<Seq<char>, Seq<char>> {
    match arg_str(a, "dir"@) {
        Some(d) => resolve_spec(m, d),
        None => Ok(m.workdir),
    }
}

pub open spec fn find_file_next(m: EditorView, a: Seq<(Seq<char>, crate::args::ArgModel)>) -> (EditorView, Next) {
    match arg_str(a, "file_name"@) {
        None => failed(m, missing("file_name"@)),
        Some(pattern) => match search_root(m, a) {
            Err(e) => failed(m, e),
            Ok(root) => wait(m, JobView::FindFile { pattern, root }),
        },
    }
}

pub open spec fn search_dir_next(m: EditorView, a: Seq<(Seq<char>, crate::args::ArgModel)>) -> (EditorView, Next) {
    match arg_str(a, "search_term"@) {
        None => failed(m, missing("search_term"@)),
        Some(term) => match search_root(m, a) {
            Err(e) => failed(m, e),
            Ok(root) => wait(m, JobView::SearchList { term, root }),
        },
    }
}

pub open spec fn search_file_next(m: EditorView, a: Seq<(Seq<char>, crate::args::ArgModel)>) -> (EditorView, Next) {
    match arg_str(a, "search_term"@) {
        None => failed(m, missing("search_term"@)),
        Some(term) => match arg_str(a, "file"@) {
            Some(f) => match resolve_spec(m, f) {
                Err(e) => failed(m, e),
                Ok(full) => wait(m, JobView::SearchFile { term, fname: f, full }),
            },
            None => match m.current_file {
                Some(cf) => done(m, search_file_reply(term, cf, lines_of(join(m.lines, seq!['\n'])))),
                None => failed(m, "No file specified and no file is currently open"@),
            },
        },
    }
}

pub open spec fn edit_next(m: EditorView, a: Seq<(Seq<char>, crate::args::ArgModel)>) -> (EditorView, Next) {
    match arg_str(a, "search"@) {
        None => failed(m, missing("search"@)),
        Some(sch) => match arg_str(a, "replace"@) {
            None => failed(m, missing("replace"@)),
            Some(rep) => {
                let all = match arg_bool(a, "replace-all"@) {
                    Some(b) => b,
                    None => false,
                };
                match m.current_file {
                    None => failed(m, no_file()),
                    Some(f) => match resolve_spec(m, f) {
                        Err(e) => failed(m, e),
                        Ok(full) => {
                            let content = join(m.lines, seq!['\n']);
                            let new = if all {
                                replace_all(content, sch, rep)
                            } else {
                                replace_first(content, sch, rep)
                            };
                            if new == content {
                                failed(m, "'"@ + sch + "' not found in current file"@)
                            } else {
                                wait(m, JobView::Edit { fname: f, full, content: new })
                            }
                        },
                    },
                }
            },
        },
    }
}

pub open spec fn insert_next(m: EditorView, a: Seq<(Seq<char>, crate::args::ArgModel)>) -> (EditorView, Next) {
    match arg_str(a, "text"@) {
        None => failed(m, missing("text"@)),
        Some(text) => {
            let line = opt_usize(arg_uint(a, "line"@));
            match m.current_file {
                None => failed(m, no_file()),
                Some(f) => match resolve_spec(m, f) {
                    Err(e) => failed(m, e),
                    Ok(full) => {
                        let ls = inserted(m.lines, lines_of(text), line);
                        wait(
                            with_lines(m, ls),
                            JobView::Insert { fname: f, full, line, content: join(ls, seq!['\n']) },
                        )
                    },
                },
            }
        },
    }
}

pub open spec fn filemap_next(m: EditorView, a: Seq<(Seq<char>, crate::args::ArgModel)>) -> (EditorView, Next) {
    match arg_str(a, "file_path"@) {
        None => failed(m, missing("file_path"@)),
        Some(fp) => match resolve_spec(m, fp) {
            Err(e) => failed(m, e),
            Ok(full) => wait(m, JobView::Filemap { file_path: fp, full }),
        },
    }
}

pub open spec fn allow_next(m: EditorView, a: Seq<(Seq<char>, crate::args::ArgModel)>) -> (EditorView, Next) {
    let allow = match arg_bool(a, "allow"@) {
        Some(b) => b,
        None => true,
    };
    done(EditorView { allow_outside: allow, ..m }, allow_reply(allow, m.workdir))
}

/// What a tool call does first: the new state, and an answer or an operation to perform.
pub open spec fn dispatch_next(m: EditorView, tool: Seq<char>, a: Seq<(Seq<char>, crate::args::ArgModel)>) -> (EditorView, Next) {
    if tool == "open"@ {
        open_next(m, a)
    } else if tool == "goto"@ {
        goto_next(m, a)
    } else if tool == "create"@ {
        create_next(m, a)
    } else if tool == "write"@ {
        write_next(m, a)
    } else if tool == "scroll_up"@ {
        scroll_up_next(m)
    } else if tool == "scroll_down"@ {
        scroll_down_next(m)
    } else if tool == "find_file"@ {
        find_file_next(m, a)
    } else if tool == "search_dir"@ {
        search_dir_next(m, a)
    } else if tool == "search_file"@ {
        search_file_next(m, a)
    } else if tool == "edit"@ {
        edit_next(m, a)
    } else if tool == "insert"@ {
        insert_next(m, a)
    } else if tool == "submit"@ {
        done(m, submitted())
    } else if tool == "filemap"@ {
        filemap_next(m, a)
    } else if tool == "allow_outside_workspace"@ {
        allow_next(m, a)
    } else {
        failed(m, "Unknown tool: "@ + tool)
    }
}

/// The inputs on which a tool call computes its window without overflowing `usize`.
pub open spec fn dispatch_ok(m: EditorView, tool: Seq<char>, a: Seq<(Seq<char>, crate::args::ArgModel)>) -> bool {
    &&& (tool == "goto"@ && m.current_file is Some && arg_uint(a, "line_number"@) is Some) ==> window_fits(
        with_start(m, centred_start(arg_uint(a, "line_number"@)->0 as usize)),
    )
    &&& (tool == "scroll_down"@ && m.current_file is Some) ==> m.window_start + WINDOW_SIZE <= usize::MAX
}

// ---------------------------------------------------------------------------
// Resuming a tool call
// ---------------------------------------------------------------------------

/// The first file from `from` on that a directory search reads.
pub open spec fn next_searchable(files: Seq<Seq<char>>, from: nat) -> Option<nat>
    decreases files.len() - from,
{
    if from >= files.len() {
        None
    } else if searchable(files[from as int]) {
        Some(from)
    } else {
        next_searchable(files, from + 1)
    }
}

/// A directory search goes on with the next file it reads, or answers.
pub open spec fn search_next(
    m: EditorView,
    term: Seq<char>,
    root: Seq<char>,
    files: Seq<Seq<char>>,
    from: nat,
    results: Seq<Seq<char>>,
) -> (EditorView, Next) {
    match next_searchable(files, from) {
        Some(k) => wait(m, JobView::SearchRead { term, root, files, next: k, results }),
        None => done(m, search_dir_reply(term, root, results, m.workdir)),
    }
}

/// What a pending call does with the outcome of its operation.
pub open spec fn resume_next(m: EditorView, j: JobView, o: OutcomeView) -> (EditorView, Next) {
    match j {
        JobView::Open { path, line, full } => match o {
            OutcomeView::Text(c) => {
                let ls = lines_of(c);
                let m2 = opened(m, path, ls, start_for(line));
                done(m2, file_header(path, dec(ls.len()) + " lines"@) + window_text_spec(m2))
            },
            OutcomeView::Failed(e) => failed(m, cannot("open"@, full, e)),
            _ => done(m, Seq::empty()),
        },
        JobView::CreateDir { filename, full, dir } => match o {
            OutcomeView::Done => wait(m, JobView::CreateFile { filename, full }),
            OutcomeView::Failed(e) => failed(m, "Cannot create directory: "@ + e),
            _ => done(m, Seq::empty()),
        },
        JobView::CreateFile { filename, full } => match o {
            OutcomeView::Done => done(
                opened(m, filename, Seq::empty(), 0), 
                file_header(filename, "new file created"@) + "(empty file)"@),
            OutcomeView::Failed(e) => failed(m, cannot("create"@, full, e)),
            _ => done(m, Seq::empty()),
        },
        JobView::WriteDir { path, content, full, dir } => match o {
            OutcomeView::Done => wait(m, JobView::WriteCheck { path, content, full }),
            OutcomeView::Failed(e) => failed(m, "Cannot create directory: "@ + e),
            _ => done(m, Seq::empty()),
        },
        JobView::WriteCheck { path, content, full } => match o {
            OutcomeView::Exists(b) => wait(m, JobView::WriteFile { path, content, full, existed: b }),
            _ => done(m, Seq::empty()),
        },
        JobView::WriteFile { path, content, full, existed } => match o {
            OutcomeView::Done => {
                let ls = lines_of(content);
                let m2 = opened(m, path, ls, 0);
                let action = if existed {
                    "overwritten"@
                } else {
                    "new file written"@
                };
                done(
                    m2,
                    file_header(path, action + ", "@ + dec(ls.len()) + " lines"@) + window_text_spec(m2),
                )
            },
            OutcomeView::Failed(e) => failed(m, cannot("write"@, full, e)),
            _ => done(m, Seq::empty()),
        },
        JobView::FindFile { pattern, root } => match o {
            OutcomeView::Files(fs) => done(
                m,
                find_reply(
                    pattern,
                    root,
                    cap(find_hits(fs, pattern, m.workdir), MAX_RESULTS as nat),
                    m.workdir,
                ),
            ),
            _ => done(m, Seq::empty()),
        },
        JobView::SearchList { term, root } => match o {
            OutcomeView::Files(fs) => search_next(m, term, root, fs, 0, Seq::empty()),
            _ => done(m, Seq::empty()),
        },
        JobView::SearchRead { term, root, files, next, results } => match o {
            OutcomeView::Text(c) => {
                let r2 = cap(
                    results + file_hits(
                        strip_display(files[next as int], m.workdir),
                        lines_of(c),
                        term,
                    ),
                    MAX_RESULTS as nat,
                );
                if r2.len() >= MAX_RESULTS {
                    done(m, search_dir_reply(term, root, r2, m.workdir))
                } else {
                    search_next(m, term, root, files, next + 1, r2)
                }
            },
            OutcomeView::Failed(_) => search_next(m, term, root, files, next + 1, results),
            _ => done(m, Seq::empty()),
        },
        JobView::SearchFile { term, fname, full } => match o {
            OutcomeView::Text(c) => done(m, search_file_reply(term, fname, lines_of(c))),
            OutcomeView::Failed(e) => failed(m, cannot("read"@, full, e)),
            _ => done(m, Seq::empty()),
        },
        JobView::Edit { fname, full, content } => match o {
            OutcomeView::Done => {
                let m2 = with_lines(m, lines_of(content));
                done(m2, file_header(fname, "edited"@) + window_text_spec(m2))
            },
            OutcomeView::Failed(e) => failed(m, cannot("write"@, full, e)),
            _ => done(m, Seq::empty()),
        },
        JobView::Insert { fname, full, line, content } => match o {
            OutcomeView::Done => {
                let m2 = match line {
                    Some(ln) => with_start(m, sat_sub(ln, WINDOW_SIZE / 2)),
                    None => m,
                };
                done(m2, file_header(fname, "text inserted"@) + window_text_spec(m2))
            },
            OutcomeView::Failed(e) => failed(m, cannot("write"@, full, e)),
            _ => done(m, Seq::empty()),
        },
        JobView::Filemap { file_path, full } => match o {
            OutcomeView::Text(c) => {
                let ls = lines_of(c);
                done(
                    m, 
                    "[Filemap: "@ + file_path + " ("@ + dec(ls.len()) + " lines)]\n"@ + outline(ls))
            },
            OutcomeView::Failed(e) => failed(m, cannot("read"@, full, e)),
            _ => done(m, Seq::empty()),
        },
    }
}

/// The outcomes on which resuming computes without overflowing `usize` (a
/// text read from a file always has at most `usize::MAX` bytes).
pub open spec fn resume_ok(m: EditorView, j: JobView, o: OutcomeView) -> bool {
    match j {
        JobView::Open { path, line, .. } => o matches OutcomeView::Text(c) ==> window_fits(
            opened(m, path, lines_of(c), start_for(line)),
        ),
        JobView::Edit { content, .. } => o is Done ==> window_fits(with_lines(m, lines_of(content))),
        JobView::Insert { line, .. } => o is Done ==> window_fits(
            match line {
                Some(ln) => with_start(m, sat_sub(ln, WINDOW_SIZE / 2)),
                None => m,
            },
        ),
        JobView::Filemap { .. } => o matches OutcomeView::Text(c) ==> utf8_size(c) <= usize::MAX,
        _ => true,
    }
}

// ---------------------------------------------------------------------------
// Steps as the caller sees them: a failed call answers with its error behind
// the `ERROR: ` marker.
// ---------------------------------------------------------------------------

pub open spec fn open_spec(m: EditorView, a: Seq<(Seq<char>, crate::args::ArgModel)>) -> (EditorView, StepView) {
    stepped(open_next(m, a))
}

pub open spec fn goto_spec(m: EditorView, a: Seq<(Seq<char>, crate::args::ArgModel)>) -> (EditorView, StepView) {
    stepped(goto_next(m, a))
}

pub open spec fn create_spec(m: EditorView, a: Seq<(Seq<char>, crate::args::ArgModel)>) -> (EditorView, StepView) {
    stepped(create_next(m, a))
}

pub open spec fn write_spec(m: EditorView, a: Seq<(Seq<char>, crate::args::ArgModel)>) -> (EditorView, StepView) {
    stepped(write_next(m, a))
}

pub open spec fn scroll_up_spec(m: EditorView) -> (EditorView, StepView) {
    stepped(scroll_up_next(m))
}

pub open spec fn scroll_down_spec(m: EditorView) -> (EditorView, StepView) {
    stepped(scroll_down_next(m))
}

pub open spec fn find_file_spec(m: EditorView, a: Seq<(Seq<char>, crate::args::ArgModel)>) -> (EditorView, StepView) {
    stepped(find_file_next(m, a))
}

pub open spec fn search_dir_spec(m: EditorView, a: Seq<(Seq<char>, crate::args::ArgModel)>) -> (EditorView, StepView) {
    stepped(search_dir_next(m, a))
}

pub open spec fn search_file_spec(m: EditorView, a: Seq<(Seq<char>, crate::args::ArgModel)>) -> (EditorView, StepView) {
    stepped(search_file_next(m, a))
}

pub open spec fn edit_spec(m: EditorView, a: Seq<(Seq<char>, crate::args::ArgModel)>) -> (EditorView, StepView) {
    stepped(edit_next(m, a))
}

pub open spec fn insert_spec(m: EditorView, a: Seq<(Seq<char>, crate::args::ArgModel)>) -> (EditorView, StepView) {
    stepped(insert_next(m, a))
}

pub open spec fn filemap_spec(m: EditorView, a: Seq<(Seq<char>, crate::args::ArgModel)>) -> (EditorView, StepView) {
    stepped(filemap_next(m, a))
}

pub open spec fn allow_spec(m: EditorView, a: Seq<(Seq<char>, crate::args::ArgModel)>) -> (EditorView, StepView) {
    stepped(allow_next(m, a))
}

/// What a tool call does first, as the caller sees it: the new state, and a
/// reply or an operation to perform.
pub open spec fn dispatch_spec(m: EditorView, tool: Seq<char>, a: Seq<(Seq<char>, crate::args::ArgModel)>) -> (EditorView, StepView) {
    stepped(dispatch_next(m, tool, a))
}

/// What a pending call does with the outcome of its operation, as the caller sees it.
pub open spec fn resume_spec(m: EditorView, j: JobView, o: OutcomeView) -> (EditorView, StepView) {
    stepped(resume_next(m, j, o))
}

pub open spec fn search_on(
    m: EditorView,
    term: Seq<char>,
    root: Seq<char>,
    files: Seq<Seq<char>>,
    from: nat,
    results: Seq<Seq<char>>,
) -> (EditorView, StepView) {
    stepped(search_next(m, term, root, files, from, results))
}

} // verus!
