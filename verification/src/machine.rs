//! The executable tool machine: `dispatch` starts a tool call, `resume` feeds it
//! the outcome of the file-system operation it asked for.

use vstd::prelude::*;
use crate::text::{
    views, chars_of, string_of, push_str, extend, push_dec, copy, same, eq_str, lines_chars,
    join_chars, replace_all_chars, replace_first_chars, utf8_size,
};
use crate::args::ToolArgs;
use crate::editor::{EditorState, EditorView, WINDOW_SIZE, sat_sub, centred_start, opt_view};
use crate::paths::strip_display_exec;
use crate::search::{add_hits, find_matches, searchable_exec, outline_exec, utf8_fits, MAX_RESULTS, lemma_line_size};
use crate::tools::{
    JobView, RequestView, OutcomeView, StepView, err, missing, cannot, file_header, opt_usize,
    inserted, search_root, search_file_reply, dispatch_ok, dispatch_spec, open_spec, goto_spec,
    create_spec, write_spec, scroll_up_spec, scroll_down_spec, find_file_spec, search_dir_spec,
    search_file_spec, edit_spec, insert_spec, filemap_spec, allow_spec, request_of, accepts,
    resume_ok, resume_spec, search_on, next_searchable, search_dir_reply, find_reply, opened,
    with_lines, with_start, start_for,
};

verus! {

enum JobKind {
    Open { path: Vec<char>, line: Option<usize>, full: Vec<char> },
    CreateDir { filename: Vec<char>, full: Vec<char>, dir: Vec<char> },
    CreateFile { filename: Vec<char>, full: Vec<char> },
    WriteDir { path: Vec<char>, content: Vec<char>, full: Vec<char>, dir: Vec<char> },
    WriteCheck { path: Vec<char>, content: Vec<char>, full: Vec<char> },
    WriteFile { path: Vec<char>, content: Vec<char>, full: Vec<char>, existed: bool },
    FindFile { pattern: Vec<char>, root: Vec<char> },
    SearchList { term: Vec<char>, root: Vec<char> },
    SearchRead {
        term: Vec<char>,
        root: Vec<char>,
        files: Vec<Vec<char>>,
        next: usize,
        results: Vec<Vec<char>>,
    },
    SearchFile { term: Vec<char>, fname: Vec<char>, full: Vec<char> },
    Edit { fname: Vec<char>, full: Vec<char>, content: Vec<char> },
    Insert { fname: Vec<char>, full: Vec<char>, line: Option<usize>, content: Vec<char> },
    Filemap { file_path: Vec<char>, full: Vec<char> },
}

spec fn kind_view(k: JobKind) -> JobView {
    match k {
        JobKind::Open { path, line, full } => JobView::Open { path: path@, line, full: full@ },
        JobKind::CreateDir { filename, full, dir } => JobView::CreateDir {
            filename: filename@,
            full: full@,
            dir: dir@,
        },
        JobKind::CreateFile { filename, full } => JobView::CreateFile {
            filename: filename@,
            full: full@,
        },
        JobKind::WriteDir { path, content, full, dir } => JobView::WriteDir {
            path: path@,
            content: content@,
            full: full@,
            dir: dir@,
        },
        JobKind::WriteCheck { path, content, full } => JobView::WriteCheck {
            path: path@,
            content: content@,
            full: full@,
        },
        JobKind::WriteFile { path, content, full, existed } => JobView::WriteFile {
            path: path@,
            content: content@,
            full: full@,
            existed,
        },
        JobKind::FindFile { pattern, root } => JobView::FindFile {
            pattern: pattern@,
            root: root@,
        },
        JobKind::SearchList { term, root } => JobView::SearchList { term: term@, root: root@ },
        JobKind::SearchRead { term, root, files, next, results } => JobView::SearchRead {
            term: term@,
            root: root@,
            files: views(files@),
            next: next as nat,
            results: views(results@),
        },
        JobKind::SearchFile { term, fname, full } => JobView::SearchFile {
            term: term@,
            fname: fname@,
            full: full@,
        },
        JobKind::Edit { fname, full, content } => JobView::Edit {
            fname: fname@,
            full: full@,
            content: content@,
        },
        JobKind::Insert { fname, full, line, content } => JobView::Insert {
            fname: fname@,
            full: full@,
            line,
            content: content@,
        },
        JobKind::Filemap { file_path, full } => JobView::Filemap {
            file_path: file_path@,
            full: full@,
        },
    }
}

/// A tool call waiting for the outcome of a file-system operation.
pub struct Job {
    kind: JobKind,
}

impl View for Job {
    type V = JobView;

    closed spec fn view(&self) -> JobView {
        kind_view(self.kind)
    }
}

impl Job {
    #[verifier::type_invariant]
    spec fn well_formed(self) -> bool {
        match self.kind {
            JobKind::SearchRead { files, next, results, .. } => next < files@.len()
                && results@.len() < MAX_RESULTS,
            _ => true,
        }
    }
}

/// A file-system operation for the caller to perform.
pub enum FsRequest {
    /// Read the file as UTF-8 text.
    Read(String),
    /// Create the directory with its missing parents.
    MakeDirs(String),
    /// Tell whether the path exists.
    Exists(String),
    /// Write the text as the whole file.
    Write(String, String),
    /// List the files below the directory (at most ten levels down), in walk order.
    ListFiles(String),
}

impl View for FsRequest {
    type V = RequestView;

    open spec fn view(&self) -> RequestView {
        match self {
            FsRequest::Read(p) => RequestView::Read(p@),
            FsRequest::MakeDirs(p) => RequestView::MakeDirs(p@),
            FsRequest::Exists(p) => RequestView::Exists(p@),
            FsRequest::Write(p, c) => RequestView::Write(p@, c@),
            FsRequest::ListFiles(p) => RequestView::ListFiles(p@),
        }
    }
}

/// What a file-system operation came to.
pub enum Outcome {
    /// The file's text.
    Text(String),
    /// The operation failed; the error's message.
    Failed(String),
    /// The operation succeeded.
    Done,
    /// Whether the path exists.
    Exists(bool),
    /// The files found, in walk order.
    Files(Vec<String>),
}

pub open spec fn string_views(v: Seq<String>) -> Seq<Seq<char>> {
    v.map_values(|s: String| s@)
}

impl View for Outcome {
    type V = OutcomeView;

    open spec fn view(&self) -> OutcomeView {
        match self {
            Outcome::Text(s) => OutcomeView::Text(s@),
            Outcome::Failed(s) => OutcomeView::Failed(s@),
            Outcome::Done => OutcomeView::Done,
            Outcome::Exists(b) => OutcomeView::Exists(*b),
            Outcome::Files(v) => OutcomeView::Files(string_views(v@)),
        }
    }
}

/// The next step of a tool call.
pub enum Step {
    /// The call is over; the tool's answer.
    Reply(String),
    /// The call waits for the outcome of `job.request()`.
    Io(Job),
}

impl View for Step {
    type V = StepView;

    open spec fn view(&self) -> StepView {
        match self {
            Step::Reply(s) => StepView::Reply(s@),
            Step::Io(j) => StepView::Io(j@),
        }
    }
}

// ---------------------------------------------------------------------------
// Small builders
// ---------------------------------------------------------------------------

fn reply_of(v: Vec<char>) -> (r: Step)
    ensures
        r@ == StepView::Reply(v@),
{
    Step::Reply(string_of(v.as_slice()))
}

fn error_of(e: &[char]) -> (r: Step)
    ensures
        r@ == StepView::Reply(err(e@)),
{
    let mut out: Vec<char> = Vec::new();
    push_str(&mut out, "ERROR: ");
    extend(&mut out, e);
    reply_of(out)
}

fn missing_reply(name: &str) -> (r: Step)
    ensures
        r@ == StepView::Reply(err(missing(name@))),
{
    let mut out: Vec<char> = Vec::new();
    push_str(&mut out, "missing required parameter: ");
    push_str(&mut out, name);
    error_of(out.as_slice())
}

fn literal_error(text: &str) -> (r: Step)
    ensures
        r@ == StepView::Reply(err(text@)),
{
    let t = chars_of(text);
    error_of(t.as_slice())
}

fn cannot_reply(verb: &str, full: &[char], e: &[char]) -> (r: Step)
    ensures
        r@ == StepView::Reply(err(cannot(verb@, full@, e@))),
{
    let mut out: Vec<char> = Vec::new();
    push_str(&mut out, "Cannot ");
    push_str(&mut out, verb);
    push_str(&mut out, " ");
    extend(&mut out, full);
    push_str(&mut out, ": ");
    extend(&mut out, e);
    error_of(out.as_slice())
}

fn header(name: &[char], what: &[char]) -> (r: Vec<char>)
    ensures
        r@ == file_header(name@, what@),
{
    let mut out: Vec<char> = Vec::new();
    push_str(&mut out, "[File: ");
    extend(&mut out, name);
    push_str(&mut out, " (");
    extend(&mut out, what);
    push_str(&mut out, ")]\n");
    out
}

fn window_reply(state: &EditorState, name: &[char], what: &[char]) -> (r: Step)
    requires
        crate::editor::window_fits(state@),
    ensures
        r@ == StepView::Reply(
            file_header(name@, what@) + crate::editor::window_text_spec(state@),
        ),
{
    let mut out = header(name, what);
    let w = state.window_chars();
    extend(&mut out, w.as_slice());
    reply_of(out)
}

fn new_job(kind: JobKind) -> (r: Job)
    requires
        match kind {
            JobKind::SearchRead { files, next, results, .. } => next < files@.len()
                && results@.len() < MAX_RESULTS,
            _ => true,
        },
    ensures
        r@ == kind_view(kind),
{
    Job { kind }
}

fn centred(ln: usize) -> (r: usize)
    ensures
        r == centred_start(ln),
{
    let target = if ln >= 1 {
        ln - 1
    } else {
        0
    };
    if target >= WINDOW_SIZE / 2 {
        target - WINDOW_SIZE / 2
    } else {
        0
    }
}

fn opt_to_usize(o: Option<u64>) -> (r: Option<usize>)
    ensures
        r == opt_usize(o),
{
    match o {
        Some(n) => Some(n as usize),
        None => None,
    }
}

fn string_chars(v: &Vec<String>) -> (r: Vec<Vec<char>>)
    ensures
        views(r@) == string_views(v@),
{
    let mut out: Vec<Vec<char>> = Vec::new();
    let mut i: usize = 0;
    while i < v.len()
        invariant
            i <= v@.len(),
            views(out@) == string_views(v@).take(i as int),
        decreases v@.len() - i,
    {
        let ghost before = views(out@);
        let c = chars_of(v[i].as_str());
        let ghost cv = c@;
        out.push(c);
        i = i + 1;
        assert(views(out@) =~= before.push(cv));
        assert(string_views(v@).take(i as int) =~= string_views(v@).take(i - 1).push(v@[i - 1]@));
    }
    assert(string_views(v@).take(i as int) =~= string_views(v@));
    out
}

// ---------------------------------------------------------------------------
// Starting tool calls
// ---------------------------------------------------------------------------

fn tool_open(state: &EditorState, args: &ToolArgs) -> (r: Step)
    ensures
        (state@, r@) == open_spec(state@, args@),
{
    match args.get_str("path") {
        None => missing_reply("path"),
        Some(path) => {
            let line = opt_to_usize(args.get_uint("line_number"));
            match state.resolve_chars(path.as_slice()) {
                Err(e) => error_of(e.as_slice()),
                Ok(full) => Step::Io(new_job(JobKind::Open { path, line, full })),
            }
        },
    }
}

fn tool_goto(state: &mut EditorState, args: &ToolArgs) -> (r: Step)
    requires
        dispatch_ok(old(state)@, "goto"@, args@),
    ensures
        (final(state)@, r@) == goto_spec(old(state)@, args@),
{
    match args.get_uint("line_number") {
        None => missing_reply("line_number"),
        Some(n) => {
            let fname = match state.file_ref() {
                None => {
                    return literal_error("No file is currently open");
                },
                Some(f) => copy(f.as_slice()),
            };
            let ln = n as usize;
            let w = centred(ln);
            state.set_window_start(w);
            let mut what: Vec<char> = Vec::new();
            push_str(&mut what, "goto line ");
            push_dec(&mut what, ln);
            window_reply(state, fname.as_slice(), what.as_slice())
        },
    }
}

fn tool_create(state: &EditorState, args: &ToolArgs) -> (r: Step)
    ensures
        (state@, r@) == create_spec(state@, args@),
{
    match args.get_str("filename") {
        None => missing_reply("filename"),
        Some(f) => match state.resolve_with_parent(f.as_slice()) {
            Err(e) => error_of(e.as_slice()),
            Ok((full, parent)) => match parent {
                Some(dir) => Step::Io(new_job(JobKind::CreateDir { filename: f, full, dir })),
                None => Step::Io(new_job(JobKind::CreateFile { filename: f, full })),
            },
        },
    }
}

fn tool_write(state: &EditorState, args: &ToolArgs) -> (r: Step)
    ensures
        (state@, r@) == write_spec(state@, args@),
{
    match args.get_str("path") {
        None => missing_reply("path"),
        Some(path) => match args.get_str("content") {
            None => missing_reply("content"),
            Some(content) => match state.resolve_with_parent(path.as_slice()) {
                Err(e) => error_of(e.as_slice()),
                Ok((full, parent)) => match parent {
                    Some(dir) => Step::Io(new_job(JobKind::WriteDir { path, content, full, dir })),
                    None => Step::Io(new_job(JobKind::WriteCheck { path, content, full })),
                },
            },
        },
    }
}

/// Scrolls the window up by a full window (not past the top).
pub fn tool_scroll_up(state: &mut EditorState) -> (r: Step)
    ensures
        (final(state)@, r@) == scroll_up_spec(old(state)@),
{
    let fname = match state.file_ref() {
        None => {
            return literal_error("No file is currently open");
        },
        Some(f) => copy(f.as_slice()),
    };
    let w = state.window_start();
    let nw = if w >= WINDOW_SIZE {
        w - WINDOW_SIZE
    } else {
        0
    };
    state.set_window_start(nw);
    let what = chars_of("scroll up");
    window_reply(state, fname.as_slice(), what.as_slice())
}

/// Scrolls the window down by a full window (not past the last full window).
pub fn tool_scroll_down(state: &mut EditorState) -> (r: Step)
    requires
        dispatch_ok(old(state)@, "scroll_down"@, Seq::empty()),
    ensures
        (final(state)@, r@) == scroll_down_spec(old(state)@),
{
    let fname = match state.file_ref() {
        None => {
            return literal_error("No file is currently open");
        },
        Some(f) => copy(f.as_slice()),
    };
    let len = state.line_count();
    let max = if len >= WINDOW_SIZE {
        len - WINDOW_SIZE
    } else {
        0
    };
    let s = state.window_start() + WINDOW_SIZE;
    let nw = if s <= max {
        s
    } else {
        max
    };
    state.set_window_start(nw);
    let what = chars_of("scroll down");
    window_reply(state, fname.as_slice(), what.as_slice())
}

fn root_of(state: &EditorState, args: &ToolArgs) -> (r: Result<Vec<char>, Vec<char>>)
    ensures
        match r {
            Ok(v) => search_root(state@, args@) == Ok::<Seq<char>, Seq<char>>(v@),
            Err(e) => search_root(state@, args@) == Err::<Seq<char>, Seq<char>>(e@),
        },
{
    match args.get_str("dir") {
        Some(d) => state.resolve_chars(d.as_slice()),
        None => Ok(copy(state.workdir_chars().as_slice())),
    }
}

fn tool_find_file(state: &EditorState, args: &ToolArgs) -> (r: Step)
    ensures
        (state@, r@) == find_file_spec(state@, args@),
{
    match args.get_str("file_name") {
        None => missing_reply("file_name"),
        Some(pattern) => match root_of(state, args) {
            Err(e) => error_of(e.as_slice()),
            Ok(root) => Step::Io(new_job(JobKind::FindFile { pattern, root })),
        },
    }
}

fn tool_search_dir(state: &EditorState, args: &ToolArgs) -> (r: Step)
    ensures
        (state@, r@) == search_dir_spec(state@, args@),
{
    match args.get_str("search_term") {
        None => missing_reply("search_term"),
        Some(term) => match root_of(state, args) {
            Err(e) => error_of(e.as_slice()),
            Ok(root) => Step::Io(new_job(JobKind::SearchList { term, root })),
        },
    }
}

fn search_file_answer(term: &[char], fname: &[char], ls: &Vec<Vec<char>>) -> (r: Vec<char>)
    ensures
        r@ == search_file_reply(term@, fname@, views(ls@)),
{
    let mut res: Vec<Vec<char>> = Vec::new();
    add_hits(&mut res, fname, ls, term);
    assert(views(res@) =~= crate::search::cap(
        Seq::<Seq<char>>::empty() + crate::search::file_hits(fname@, views(ls@), term@),
        MAX_RESULTS as nat,
    ));
    assert(Seq::<Seq<char>>::empty() + crate::search::file_hits(fname@, views(ls@), term@)
        =~= crate::search::file_hits(fname@, views(ls@), term@));
    let mut out: Vec<char> = Vec::new();
    if res.len() == 0 {
        push_str(&mut out, "No matches found for '");
        extend(&mut out, term);
        push_str(&mut out, "' in ");
        extend(&mut out, fname);
    } else {
        push_str(&mut out, "Found ");
        push_dec(&mut out, res.len());
        push_str(&mut out, " match(es) in ");
        extend(&mut out, fname);
        push_str(&mut out, ":\n");
        let j = join_chars(&res, '\n');
        extend(&mut out, j.as_slice());
    }
    out
}

fn tool_search_file(state: &EditorState, args: &ToolArgs) -> (r: Step)
    ensures
        (state@, r@) == search_file_spec(state@, args@),
{
    match args.get_str("search_term") {
        None => missing_reply("search_term"),
        Some(term) => match args.get_str("file") {
            Some(f) => match state.resolve_chars(f.as_slice()) {
                Err(e) => error_of(e.as_slice()),
                Ok(full) => Step::Io(new_job(JobKind::SearchFile { term, fname: f, full })),
            },
            None => match state.file_ref() {
                Some(cf) => {
                    let joined = join_chars(state.lines_ref(), '\n');
                    let ls = lines_chars(joined.as_slice());
                    reply_of(search_file_answer(term.as_slice(), cf.as_slice(), &ls))
                },
                None => literal_error("No file specified and no file is currently open"),
            },
        },
    }
}

fn tool_edit(state: &EditorState, args: &ToolArgs) -> (r: Step)
    ensures
        (state@, r@) == edit_spec(state@, args@),
{
    match args.get_str("search") {
        None => missing_reply("search"),
        Some(sch) => match args.get_str("replace") {
            None => missing_reply("replace"),
            Some(rep) => {
                let all = match args.get_bool("replace-all") {
                    Some(b) => b,
                    None => false,
                };
                match state.file_ref() {
                    None => literal_error("No file is currently open"),
                    Some(f) => match state.resolve_chars(f.as_slice()) {
                        Err(e) => error_of(e.as_slice()),
                        Ok(full) => {
                            let content = join_chars(state.lines_ref(), '\n');
                            let new = if all {
                                replace_all_chars(content.as_slice(), sch.as_slice(), rep.as_slice())
                            } else {
                                replace_first_chars(
                                    content.as_slice(),
                                    sch.as_slice(),
                                    rep.as_slice(),
                                )
                            };
                            if same(content.as_slice(), new.as_slice()) {
                                let mut msg: Vec<char> = Vec::new();
                                push_str(&mut msg, "'");
                                extend(&mut msg, sch.as_slice());
                                push_str(&mut msg, "' not found in current file");
                                error_of(msg.as_slice())
                            } else {
                                let fname = copy(f.as_slice());
                                Step::Io(new_job(JobKind::Edit { fname, full, content: new }))
                            }
                        },
                    },
                }
            },
        },
    }
}

fn insert_lines(ls: &Vec<Vec<char>>, nl: Vec<Vec<char>>, line: Option<usize>) -> (r: Vec<Vec<char>>)
    ensures
        views(r@) == inserted(views(ls@), views(nl@), line),
{
    let ghost lv = views(ls@);
    let ghost nv = views(nl@);
    let pos = match line {
        Some(ln) => if ln <= ls.len() {
            ln
        } else {
            ls.len()
        },
        None => ls.len(),
    };
    let mut out: Vec<Vec<char>> = Vec::new();
    let mut i: usize = 0;
    while i < pos
        invariant
            pos <= ls@.len(),
            i <= pos,
            lv == views(ls@),
            views(out@) == lv.take(i as int),
        decreases pos - i,
    {
        let ghost before = views(out@);
        let c = copy(ls[i].as_slice());
        let ghost cv = c@;
        out.push(c);
        i = i + 1;
        assert(views(out@) =~= before.push(cv));
        assert(lv.take(i as int) =~= lv.take(i - 1).push(lv[i - 1]));
    }
    let ghost mid = views(out@);
    let mut more = nl;
    out.append(&mut more);
    assert(views(out@) =~= mid + nv);
    let ghost mid2 = views(out@);
    let mut k: usize = pos;
    while k < ls.len()
        invariant
            pos <= k <= ls@.len(),
            lv == views(ls@),
            views(out@) == mid2 + lv.subrange(pos as int, k as int),
        decreases ls@.len() - k,
    {
        let ghost before = views(out@);
        let c = copy(ls[k].as_slice());
        let ghost cv = c@;
        out.push(c);
        k = k + 1;
        assert(views(out@) =~= before.push(cv));
        assert(lv.subrange(pos as int, k as int) =~= lv.subrange(pos as int, k - 1).push(
            lv[k - 1],
        ));
    }
    assert(lv.subrange(pos as int, k as int) =~= lv.skip(pos as int));
    proof {
        match line {
            Some(ln) => {},
            None => {
                assert(lv.take(pos as int) =~= lv);
                assert(lv.skip(pos as int) =~= Seq::<Seq<char>>::empty());
            },
        }
    }
    assert(views(out@) =~= inserted(lv, nv, line));
    out
}

fn tool_insert(state: &mut EditorState, args: &ToolArgs) -> (r: Step)
    ensures
        (final(state)@, r@) == insert_spec(old(state)@, args@),
{
    match args.get_str("text") {
        None => missing_reply("text"),
        Some(text) => {
            let line = opt_to_usize(args.get_uint("line"));
            let fname = match state.file_ref() {
                None => {
                    return literal_error("No file is currently open");
                },
                Some(f) => copy(f.as_slice()),
            };
            match state.resolve_chars(fname.as_slice()) {
                Err(e) => error_of(e.as_slice()),
                Ok(full) => {
                    let nl = lines_chars(text.as_slice());
                    let ls = insert_lines(state.lines_ref(), nl, line);
                    let content = join_chars(&ls, '\n');
                    state.set_lines(ls);
                    Step::Io(new_job(JobKind::Insert { fname, full, line, content }))
                },
            }
        },
    }
}

fn tool_filemap(state: &EditorState, args: &ToolArgs) -> (r: Step)
    ensures
        (state@, r@) == filemap_spec(state@, args@),
{
    match args.get_str("file_path") {
        None => missing_reply("file_path"),
        Some(fp) => match state.resolve_chars(fp.as_slice()) {
            Err(e) => error_of(e.as_slice()),
            Ok(full) => Step::Io(new_job(JobKind::Filemap { file_path: fp, full })),
        },
    }
}

/// Turns access outside the workspace on or off (`allow`, on when not given).
pub fn tool_allow_outside(state: &mut EditorState, args: &ToolArgs) -> (r: Step)
    ensures
        (final(state)@, r@) == allow_spec(old(state)@, args@),
{
    let allow = match args.get_bool("allow") {
        Some(b) => b,
        None => true,
    };
    state.set_allow_outside(allow);
    let mut out: Vec<char> = Vec::new();
    if allow {
        push_str(
            &mut out,
            "\u{2705} Access outside workspace enabled. You can now use absolute paths and paths outside '",
        );
        extend(&mut out, state.workdir_chars().as_slice());
        push_str(&mut out, "'.");
    } else {
        push_str(&mut out, "\u{1f512} Access restricted to workspace '");
        extend(&mut out, state.workdir_chars().as_slice());
        push_str(&mut out, "' only.");
    }
    reply_of(out)
}

/// Starts the tool call `tool` with `args`: answers at once, or returns the
/// pending call, whose `request()` the caller performs before `resume`.
pub fn dispatch(state: &mut EditorState, tool: &str, args: &ToolArgs) -> (r: Step)
    requires
        dispatch_ok(old(state)@, tool@, args@),
    ensures
        (final(state)@, r@) == dispatch_spec(old(state)@, tool@, args@),
{
    let t = chars_of(tool);
    let t = t.as_slice();
    if eq_str(t, "open") {
        tool_open(state, args)
    } else if eq_str(t, "goto") {
        tool_goto(state, args)
    } else if eq_str(t, "create") {
        tool_create(state, args)
    } else if eq_str(t, "write") {
        tool_write(state, args)
    } else if eq_str(t, "scroll_up") {
        tool_scroll_up(state)
    } else if eq_str(t, "scroll_down") {
        tool_scroll_down(state)
    } else if eq_str(t, "find_file") {
        tool_find_file(state, args)
    } else if eq_str(t, "search_dir") {
        tool_search_dir(state, args)
    } else if eq_str(t, "search_file") {
        tool_search_file(state, args)
    } else if eq_str(t, "edit") {
        tool_edit(state, args)
    } else if eq_str(t, "insert") {
        tool_insert(state, args)
    } else if eq_str(t, "submit") {
        let v = chars_of("\u{2705} Submitted successfully.");
        reply_of(v)
    } else if eq_str(t, "filemap") {
        tool_filemap(state, args)
    } else if eq_str(t, "allow_outside_workspace") {
        tool_allow_outside(state, args)
    } else {
        let mut msg: Vec<char> = Vec::new();
        push_str(&mut msg, "Unknown tool: ");
        extend(&mut msg, t);
        error_of(msg.as_slice())
    }
}


// ---------------------------------------------------------------------------
// Resuming tool calls
// ---------------------------------------------------------------------------

impl Job {
    /// The file-system operation this call waits for.
    pub fn request(&self) -> (r: FsRequest)
        ensures
            r@ == request_of(self@),
    {
        proof {
            use_type_invariant(self);
        }
        match &self.kind {
            JobKind::Open { full, .. } => FsRequest::Read(string_of(full.as_slice())),
            JobKind::CreateDir { dir, .. } => FsRequest::MakeDirs(string_of(dir.as_slice())),
            JobKind::CreateFile { full, .. } => {
                let empty: Vec<char> = Vec::new();
                FsRequest::Write(string_of(full.as_slice()), string_of(empty.as_slice()))
            },
            JobKind::WriteDir { dir, .. } => FsRequest::MakeDirs(string_of(dir.as_slice())),
            JobKind::WriteCheck { full, .. } => FsRequest::Exists(string_of(full.as_slice())),
            JobKind::WriteFile { full, content, .. } => FsRequest::Write(
                string_of(full.as_slice()),
                string_of(content.as_slice()),
            ),
            JobKind::FindFile { root, .. } => FsRequest::ListFiles(string_of(root.as_slice())),
            JobKind::SearchList { root, .. } => FsRequest::ListFiles(string_of(root.as_slice())),
            JobKind::SearchRead { files, next, .. } => FsRequest::Read(
                string_of(files[*next].as_slice()),
            ),
            JobKind::SearchFile { full, .. } => FsRequest::Read(string_of(full.as_slice())),
            JobKind::Edit { full, content, .. } => FsRequest::Write(
                string_of(full.as_slice()),
                string_of(content.as_slice()),
            ),
            JobKind::Insert { full, content, .. } => FsRequest::Write(
                string_of(full.as_slice()),
                string_of(content.as_slice()),
            ),
            JobKind::Filemap { full, .. } => FsRequest::Read(string_of(full.as_slice())),
        }
    }

    /// Whether `o` is an outcome of the kind this call's operation gives.
    pub fn accepts(&self, o: &Outcome) -> (r: bool)
        ensures
            r == accepts(request_of(self@), o@),
    {
        let req = self.request();
        match req {
            FsRequest::Read(_) => match o {
                Outcome::Text(_) => true,
                Outcome::Failed(_) => true,
                _ => false,
            },
            FsRequest::MakeDirs(_) => match o {
                Outcome::Done => true,
                Outcome::Failed(_) => true,
                _ => false,
            },
            FsRequest::Exists(_) => match o {
                Outcome::Exists(_) => true,
                _ => false,
            },
            FsRequest::Write(_, _) => match o {
                Outcome::Done => true,
                Outcome::Failed(_) => true,
                _ => false,
            },
            FsRequest::ListFiles(_) => match o {
                Outcome::Files(_) => true,
                _ => false,
            },
        }
    }
}

fn search_dir_answer(state: &EditorState, term: &[char], root: &[char], res: &Vec<Vec<char>>) -> (r: Step)
    ensures
        r@ == StepView::Reply(search_dir_reply(term@, root@, views(res@), state@.workdir)),
{
    let mut out: Vec<char> = Vec::new();
    if res.len() == 0 {
        push_str(&mut out, "No matches found for '");
        extend(&mut out, term);
        push_str(&mut out, "' in ");
        let rel = strip_display_exec(root, state.workdir_chars().as_slice());
        extend(&mut out, rel.as_slice());
    } else {
        push_str(&mut out, "Found ");
        push_dec(&mut out, res.len());
        push_str(&mut out, " match(es):\n");
        let j = join_chars(res, '\n');
        extend(&mut out, j.as_slice());
    }
    reply_of(out)
}

fn search_next(
    state: &EditorState,
    term: Vec<char>,
    root: Vec<char>,
    files: Vec<Vec<char>>,
    from: usize,
    results: Vec<Vec<char>>,
) -> (r: Step)
    requires
        results@.len() < MAX_RESULTS,
    ensures
        (state@, r@) == search_on(state@, term@, root@, views(files@), from as nat, views(results@)),
{
    let ghost fv = views(files@);
    let mut k = from;
    while k < files.len() && !searchable_exec(files[k].as_slice())
        invariant
            from <= k,
            fv == views(files@),
            next_searchable(fv, from as nat) == next_searchable(fv, k as nat),
        decreases files@.len() - k,
    {
        k = k + 1;
    }
    if k < files.len() {
        Step::Io(new_job(JobKind::SearchRead { term, root, files, next: k, results }))
    } else {
        search_dir_answer(state, term.as_slice(), root.as_slice(), &results)
    }
}

/// Resumes the pending call `job` with the outcome of its operation.
pub fn resume(state: &mut EditorState, job: Job, outcome: Outcome) -> (r: Step)
    requires
        accepts(request_of(job@), outcome@),
        resume_ok(old(state)@, job@, outcome@),
    ensures
        (final(state)@, r@) == resume_spec(old(state)@, job@, outcome@),
{
    proof {
        use_type_invariant(&job);
    }
    let ghost jv = job@;
    let Job { kind } = job;
    match kind {
        JobKind::Open { path, line, full } => match outcome {
            Outcome::Text(c) => {
                let cv = chars_of(c.as_str());
                let ls = lines_chars(cv.as_slice());
                let w = match line {
                    Some(ln) => centred(ln),
                    None => 0,
                };
                let n = ls.len();
                let name = copy(path.as_slice());
                state.set_file(name, ls, w);
                let mut what: Vec<char> = Vec::new();
                push_dec(&mut what, n);
                push_str(&mut what, " lines");
                window_reply(state, path.as_slice(), what.as_slice())
            },
            Outcome::Failed(e) => {
                let ev = chars_of(e.as_str());
                cannot_reply("open", full.as_slice(), ev.as_slice())
            },
            _ => reply_of(Vec::new()),
        },
        JobKind::CreateDir { filename, full, dir } => match outcome {
            Outcome::Done => Step::Io(new_job(JobKind::CreateFile { filename, full })),
            Outcome::Failed(e) => {
                let mut msg: Vec<char> = Vec::new();
                push_str(&mut msg, "Cannot create directory: ");
                push_str(&mut msg, e.as_str());
                error_of(msg.as_slice())
            },
            _ => reply_of(Vec::new()),
        },
        JobKind::CreateFile { filename, full } => match outcome {
            Outcome::Done => {
                let name = copy(filename.as_slice());
                state.set_file(name, Vec::new(), 0);
                assert(views(Seq::<Vec<char>>::empty()) =~= Seq::<Seq<char>>::empty());
                let what = chars_of("new file created");
                let mut out = header(filename.as_slice(), what.as_slice());
                push_str(&mut out, "(empty file)");
                reply_of(out)
            },
            Outcome::Failed(e) => {
                let ev = chars_of(e.as_str());
                cannot_reply("create", full.as_slice(), ev.as_slice())
            },
            _ => reply_of(Vec::new()),
        },
        JobKind::WriteDir { path, content, full, dir } => match outcome {
            Outcome::Done => Step::Io(new_job(JobKind::WriteCheck { path, content, full })),
            Outcome::Failed(e) => {
                let mut msg: Vec<char> = Vec::new();
                push_str(&mut msg, "Cannot create directory: ");
                push_str(&mut msg, e.as_str());
                error_of(msg.as_slice())
            },
            _ => reply_of(Vec::new()),
        },
        JobKind::WriteCheck { path, content, full } => match outcome {
            Outcome::Exists(b) => Step::Io(
                new_job(JobKind::WriteFile { path, content, full, existed: b }),
            ),
            _ => reply_of(Vec::new()),
        },
        JobKind::WriteFile { path, content, full, existed } => match outcome {
            Outcome::Done => {
                let ls = lines_chars(content.as_slice());
                let n = ls.len();
                let name = copy(path.as_slice());
                state.set_file(name, ls, 0);
                let mut what: Vec<char> = Vec::new();
                if existed {
                    push_str(&mut what, "overwritten");
                } else {
                    push_str(&mut what, "new file written");
                }
                push_str(&mut what, ", ");
                push_dec(&mut what, n);
                push_str(&mut what, " lines");
                window_reply(state, path.as_slice(), what.as_slice())
            },
            Outcome::Failed(e) => {
                let ev = chars_of(e.as_str());
                cannot_reply("write", full.as_slice(), ev.as_slice())
            },
            _ => reply_of(Vec::new()),
        },
        JobKind::FindFile { pattern, root } => match outcome {
            Outcome::Files(fs) => {
                let files = string_chars(&fs);
                let res = find_matches(&files, pattern.as_slice(), state.workdir_chars().as_slice());
                let mut out: Vec<char> = Vec::new();
                if res.len() == 0 {
                    push_str(&mut out, "No files found matching '");
                    extend(&mut out, pattern.as_slice());
                    push_str(&mut out, "' in ");
                    let rel = strip_display_exec(root.as_slice(), state.workdir_chars().as_slice());
                    extend(&mut out, rel.as_slice());
                } else {
                    push_str(&mut out, "Found ");
                    push_dec(&mut out, res.len());
                    push_str(&mut out, " file(s):\n");
                    let j = join_chars(&res, '\n');
                    extend(&mut out, j.as_slice());
                }
                reply_of(out)
            },
            _ => reply_of(Vec::new()),
        },
        JobKind::SearchList { term, root } => match outcome {
            Outcome::Files(fs) => {
                let files = string_chars(&fs);
                let results: Vec<Vec<char>> = Vec::new();
                assert(views(results@) =~= Seq::<Seq<char>>::empty());
                search_next(state, term, root, files, 0, results)
            },
            _ => reply_of(Vec::new()),
        },
        JobKind::SearchRead { term, root, files, next, results } => {
        let nf = files.len();
        assert(next < nf);
        match outcome {
            Outcome::Text(c) => {
                let cv = chars_of(c.as_str());
                let ls = lines_chars(cv.as_slice());
                let prefix = strip_display_exec(
                    files[next].as_slice(),
                    state.workdir_chars().as_slice(),
                );
                let mut results = results;
                add_hits(&mut results, prefix.as_slice(), &ls, term.as_slice());
                if results.len() >= MAX_RESULTS {
                    search_dir_answer(state, term.as_slice(), root.as_slice(), &results)
                } else {
                    search_next(state, term, root, files, next + 1, results)
                }
            },
            Outcome::Failed(_) => search_next(state, term, root, files, next + 1, results),
            _ => reply_of(Vec::new()),
        }
        },
        JobKind::SearchFile { term, fname, full } => match outcome {
            Outcome::Text(c) => {
                let cv = chars_of(c.as_str());
                let ls = lines_chars(cv.as_slice());
                reply_of(search_file_answer(term.as_slice(), fname.as_slice(), &ls))
            },
            Outcome::Failed(e) => {
                let ev = chars_of(e.as_str());
                cannot_reply("read", full.as_slice(), ev.as_slice())
            },
            _ => reply_of(Vec::new()),
        },
        JobKind::Edit { fname, full, content } => match outcome {
            Outcome::Done => {
                let ls = lines_chars(content.as_slice());
                state.set_lines(ls);
                let what = chars_of("edited");
                window_reply(state, fname.as_slice(), what.as_slice())
            },
            Outcome::Failed(e) => {
                let ev = chars_of(e.as_str());
                cannot_reply("write", full.as_slice(), ev.as_slice())
            },
            _ => reply_of(Vec::new()),
        },
        JobKind::Insert { fname, full, line, content } => match outcome {
            Outcome::Done => {
                match line {
                    Some(ln) => {
                        let w = if ln >= WINDOW_SIZE / 2 {
                            ln - WINDOW_SIZE / 2
                        } else {
                            0
                        };
                        state.set_window_start(w);
                    },
                    None => {},
                }
                let what = chars_of("text inserted");
                window_reply(state, fname.as_slice(), what.as_slice())
            },
            Outcome::Failed(e) => {
                let ev = chars_of(e.as_str());
                cannot_reply("write", full.as_slice(), ev.as_slice())
            },
            _ => reply_of(Vec::new()),
        },
        JobKind::Filemap { file_path, full } => match outcome {
            Outcome::Text(c) => {
                let cv = chars_of(c.as_str());
                let ls = lines_chars(cv.as_slice());
                proof {
                    lemma_line_size(cv@);
                    assert forall|k: int| 0 <= k < ls@.len() implies #[trigger] utf8_size(ls@[k]@)
                        <= usize::MAX by {
                        assert(ls@[k]@ == views(ls@)[k]);
                    }
                }
                let map = outline_exec(&ls);
                let mut out: Vec<char> = Vec::new();
                push_str(&mut out, "[Filemap: ");
                extend(&mut out, file_path.as_slice());
                push_str(&mut out, " (");
                push_dec(&mut out, ls.len());
                push_str(&mut out, " lines)]\n");
                extend(&mut out, map.as_slice());
                reply_of(out)
            },
            Outcome::Failed(e) => {
                let ev = chars_of(e.as_str());
                cannot_reply("read", full.as_slice(), ev.as_slice())
            },
            _ => reply_of(Vec::new()),
        },
    }
}

/// Whether `dispatch` can run on these inputs without overflowing `usize`.
pub fn can_dispatch(state: &EditorState, tool: &str, args: &ToolArgs) -> (r: bool)
    ensures
        r == dispatch_ok(state@, tool@, args@),
{
    let t = chars_of(tool);
    let t = t.as_slice();
    proof {
        reveal_strlit("goto");
        reveal_strlit("scroll_down");
        assert("goto"@ != "scroll_down"@) by {
            assert("goto"@.len() != "scroll_down"@.len());
        }
    }
    if eq_str(t, "goto") {
        match (state.file_ref(), args.get_uint("line_number")) {
            (Some(_), Some(n)) => {
                let w = centred(n as usize);
                let r = state.line_count() == 0 || w <= usize::MAX - WINDOW_SIZE;
                assert(r == dispatch_ok(state@, tool@, args@));
                r
            },
            _ => {
                assert(dispatch_ok(state@, tool@, args@));
                true
            },
        }
    } else if eq_str(t, "scroll_down") {
        match state.file_ref() {
            Some(_) => state.window_start() <= usize::MAX - WINDOW_SIZE,
            None => true,
        }
    } else {
        assert(dispatch_ok(state@, tool@, args@));
        true
    }
}


/// Whether `resume` can run on these inputs without overflowing `usize`.
pub fn can_resume(state: &EditorState, job: &Job, outcome: &Outcome) -> (r: bool)
    ensures
        r == resume_ok(state@, job@, outcome@),
{
    let fits = |n: usize, w: usize| -> (b: bool)
        ensures
            b == (n == 0 || w + WINDOW_SIZE <= usize::MAX),
        { n == 0 || w <= usize::MAX - WINDOW_SIZE };
    match &job.kind {
        JobKind::Open { line, .. } => match outcome {
            Outcome::Text(c) => {
                let cv = chars_of(c.as_str());
                let ls = lines_chars(cv.as_slice());
                let w = match line {
                    Some(ln) => centred(*ln),
                    None => 0,
                };
                fits(ls.len(), w)
            },
            _ => true,
        },
        JobKind::Edit { content, .. } => match outcome {
            Outcome::Done => {
                let ls = lines_chars(content.as_slice());
                fits(ls.len(), state.window_start())
            },
            _ => true,
        },
        JobKind::Insert { line, .. } => match outcome {
            Outcome::Done => {
                let w = match line {
                    Some(ln) => if *ln >= WINDOW_SIZE / 2 {
                        *ln - WINDOW_SIZE / 2
                    } else {
                        0
                    },
                    None => state.window_start(),
                };
                fits(state.line_count(), w)
            },
            _ => true,
        },
        JobKind::Filemap { .. } => match outcome {
            Outcome::Text(c) => {
                let cv = chars_of(c.as_str());
                utf8_fits(cv.as_slice())
            },
            _ => true,
        },
        _ => true,
    }
}

} // verus!
