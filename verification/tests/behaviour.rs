use std::collections::BTreeMap;

use granite_tools_api_demo::machine::{tool_allow_outside, tool_scroll_down, tool_scroll_up};
use granite_tools_api_demo::start_tool_request;
use granite_tools_api_demo::{
    can_dispatch, dispatch, glob_match, resume, EditorState, FsRequest, Outcome, Step, ToolArgs,
};

/// A file system that holds every directory and the given files, and fails
/// operations on paths listed as broken.
struct Disk {
    files: BTreeMap<String, String>,
    broken: Vec<String>,
    requests: Vec<String>,
}

impl Disk {
    fn new() -> Disk {
        Disk { files: BTreeMap::new(), broken: Vec::new(), requests: Vec::new() }
    }

    fn with(mut self, path: &str, content: &str) -> Disk {
        self.files.insert(path.to_string(), content.to_string());
        self
    }

    fn perform(&mut self, req: FsRequest) -> Outcome {
        let (kind, path) = match &req {
            FsRequest::Read(p) => ("read", p.clone()),
            FsRequest::MakeDirs(p) => ("mkdir", p.clone()),
            FsRequest::Exists(p) => ("exists", p.clone()),
            FsRequest::Write(p, _) => ("write", p.clone()),
            FsRequest::ListFiles(p) => ("list", p.clone()),
        };
        self.requests.push(format!("{} {}", kind, path));
        if self.broken.contains(&path) && (kind == "read" || kind == "mkdir" || kind == "write") {
            return Outcome::Failed("Permission denied (os error 13)".to_string());
        }
        match req {
            FsRequest::Read(p) => match self.files.get(&p) {
                Some(c) => Outcome::Text(c.clone()),
                None => Outcome::Failed("No such file or directory (os error 2)".to_string()),
            },
            FsRequest::MakeDirs(_) => Outcome::Done,
            FsRequest::Exists(p) => Outcome::Exists(self.files.contains_key(&p)),
            FsRequest::Write(p, c) => {
                self.files.insert(p, c);
                Outcome::Done
            },
            FsRequest::ListFiles(root) => {
                let prefix = format!("{}/", root);
                Outcome::Files(self.files.keys().filter(|k| k.starts_with(&prefix)).cloned().collect())
            },
        }
    }
}

fn call(st: &mut EditorState, disk: &mut Disk, tool: &str, args: &ToolArgs) -> String {
    assert!(can_dispatch(st, tool, args));
    let mut step = dispatch(st, tool, args);
    loop {
        match step {
            Step::Reply(s) => return s,
            Step::Io(job) => {
                let o = disk.perform(job.request());
                step = resume(st, job, o);
            },
        }
    }
}

fn a(pairs: &[(&str, &str)]) -> ToolArgs {
    let mut r = ToolArgs::new();
    for (k, v) in pairs {
        r.set_str(k, v);
    }
    r
}

fn editor() -> EditorState {
    EditorState::new("/w".to_string())
}

fn snapshot(st: &EditorState) -> (Option<String>, Vec<String>, usize, bool) {
    let lines = (0..st.line_count()).map(|i| st.line(i)).collect();
    (st.current_file(), lines, st.window_start(), st.allow_outside())
}

#[test]
fn window_text_exact() {
    let mut disk = Disk::new().with("/w/f.txt", "a\nb\nc");
    let mut st = editor();
    let r = call(&mut st, &mut disk, "open", &a(&[("path", "f.txt")]));
    assert_eq!(r, "[File: f.txt (3 lines)]\n   1 | a\n   2 | b\n   3 | c\n(3 lines total, showing 1-3)");
}

#[test]
fn open_centres_requested_line() {
    let text: String = (1..=300).map(|i| format!("L{}\n", i)).collect();
    let mut disk = Disk::new().with("/w/big", &text);
    let mut st = editor();
    let mut args = a(&[("path", "big")]);
    args.set_uint("line_number", 120);
    let r = call(&mut st, &mut disk, "open", &args);
    assert_eq!(st.window_start(), 69);
    assert!(r.ends_with("(300 lines total, showing 70-169)"), "{}", r);
}

#[test]
fn scroll_down_then_up_restores_window() {
    let text: String = (1..=300).map(|i| format!("L{}\n", i)).collect();
    let mut disk = Disk::new().with("/w/big", &text);
    let mut st = editor();
    call(&mut st, &mut disk, "open", &a(&[("path", "big")]));
    let mut g = ToolArgs::new();
    g.set_uint("line_number", 81);
    call(&mut st, &mut disk, "goto", &g);
    assert_eq!(st.window_start(), 30);
    call(&mut st, &mut disk, "scroll_down", &ToolArgs::new());
    assert_eq!(st.window_start(), 130);
    call(&mut st, &mut disk, "scroll_up", &ToolArgs::new());
    assert_eq!(st.window_start(), 30);
}

#[test]
fn scroll_down_stops_at_last_window() {
    let text: String = (1..=150).map(|i| format!("L{}\n", i)).collect();
    let mut disk = Disk::new().with("/w/big", &text);
    let mut st = editor();
    call(&mut st, &mut disk, "open", &a(&[("path", "big")]));
    call(&mut st, &mut disk, "scroll_down", &ToolArgs::new());
    assert_eq!(st.window_start(), 50);
    call(&mut st, &mut disk, "scroll_down", &ToolArgs::new());
    assert_eq!(st.window_start(), 50);
}

#[test]
fn insert_keeps_order_around_new_lines() {
    let mut disk = Disk::new().with("/w/f", "A\nB\nC\nD\n");
    let mut st = editor();
    call(&mut st, &mut disk, "open", &a(&[("path", "f")]));
    let mut args = a(&[("text", "x\ny")]);
    args.set_uint("line", 2);
    call(&mut st, &mut disk, "insert", &args);
    let lines: Vec<String> = (0..st.line_count()).map(|i| st.line(i)).collect();
    assert_eq!(lines, vec!["A", "B", "x", "y", "C", "D"]);
    assert_eq!(disk.files["/w/f"], "A\nB\nx\ny\nC\nD");
}

#[test]
fn insert_past_end_appends() {
    let mut disk = Disk::new().with("/w/f", "A\n");
    let mut st = editor();
    call(&mut st, &mut disk, "open", &a(&[("path", "f")]));
    let mut args = a(&[("text", "Z")]);
    args.set_uint("line", 99);
    let r = call(&mut st, &mut disk, "insert", &args);
    assert!(r.contains("text inserted"));
    assert_eq!(disk.files["/w/f"], "A\nZ");
    assert_eq!(st.window_start(), 49);
}

#[test]
fn star_and_plain_patterns() {
    assert!(glob_match("*", ""));
    assert!(glob_match("abc", "abc"));
    assert!(!glob_match("abc", "abd"));
    assert!(!glob_match("abc", "abcd"));
}

#[test]
fn refused_call_keeps_state() {
    let mut disk = Disk::new().with("/w/f", "one\ntwo\n");
    let mut st = editor();
    call(&mut st, &mut disk, "open", &a(&[("path", "f")]));
    let before = snapshot(&st);
    let r = call(&mut st, &mut disk, "goto", &ToolArgs::new());
    assert_eq!(r, "ERROR: missing required parameter: line_number");
    assert_eq!(snapshot(&st), before);
    let r = call(&mut st, &mut disk, "open", &a(&[("path", "/etc/x")]));
    assert!(r.starts_with("ERROR: Access denied"));
    assert_eq!(snapshot(&st), before);
}

#[test]
fn failed_read_keeps_state() {
    let mut disk = Disk::new();
    let mut st = editor();
    let before = snapshot(&st);
    let r = call(&mut st, &mut disk, "open", &a(&[("path", "nope")]));
    assert_eq!(r, "ERROR: Cannot open /w/nope: No such file or directory (os error 2)");
    assert_eq!(snapshot(&st), before);
}

#[test]
fn write_leaves_state_as_open_does() {
    let content = "first\r\nsecond\n\nthird";
    let mut disk = Disk::new();
    let mut st = editor();
    call(&mut st, &mut disk, "write", &a(&[("path", "n.txt"), ("content", content)]));
    let after_write = snapshot(&st);
    assert_eq!(disk.files["/w/n.txt"], content);
    let mut st2 = editor();
    call(&mut st2, &mut disk, "open", &a(&[("path", "n.txt")]));
    assert_eq!(snapshot(&st2), after_write);
}

#[test]
fn requests_stay_in_workspace() {
    let mut disk = Disk::new().with("/w/b", "x");
    let mut st = editor();
    call(&mut st, &mut disk, "open", &a(&[("path", "a/../b")]));
    call(&mut st, &mut disk, "open", &a(&[("path", "a/../../b")]));
    call(&mut st, &mut disk, "create", &a(&[("filename", "d/e.txt")]));
    assert_eq!(disk.requests, vec!["read /w/b", "mkdir /w/d", "write /w/d/e.txt"]);
}

#[test]
fn missing_parameters_are_named() {
    let mut disk = Disk::new();
    let mut st = editor();
    let cases = [
        ("open", "path"),
        ("goto", "line_number"),
        ("create", "filename"),
        ("write", "path"),
        ("find_file", "file_name"),
        ("search_dir", "search_term"),
        ("search_file", "search_term"),
        ("edit", "search"),
        ("insert", "text"),
        ("filemap", "file_path"),
    ];
    for (tool, param) in cases {
        let r = call(&mut st, &mut disk, tool, &ToolArgs::new());
        assert_eq!(r, format!("ERROR: missing required parameter: {}", param), "{}", tool);
    }
    let r = call(&mut st, &mut disk, "write", &a(&[("path", "p")]));
    assert_eq!(r, "ERROR: missing required parameter: content");
    let r = call(&mut st, &mut disk, "edit", &a(&[("search", "s")]));
    assert_eq!(r, "ERROR: missing required parameter: replace");
}

#[test]
fn tools_needing_an_open_file() {
    let mut disk = Disk::new();
    let mut st = editor();
    let mut g = ToolArgs::new();
    g.set_uint("line_number", 3);
    for (tool, args) in [
        ("goto", g),
        ("scroll_up", ToolArgs::new()),
        ("scroll_down", ToolArgs::new()),
        ("edit", a(&[("search", "a"), ("replace", "b")])),
        ("insert", a(&[("text", "t")])),
    ] {
        assert_eq!(call(&mut st, &mut disk, tool, &args), "ERROR: No file is currently open", "{}", tool);
    }
    let r = call(&mut st, &mut disk, "search_file", &a(&[("search_term", "x")]));
    assert_eq!(r, "ERROR: No file specified and no file is currently open");
}

#[test]
fn io_failures_are_reported() {
    let mut disk = Disk::new().with("/w/ro", "data\n");
    disk.broken.push("/w/ro".to_string());
    disk.broken.push("/w/locked".to_string());
    let mut st = editor();
    let r = call(&mut st, &mut disk, "create", &a(&[("filename", "locked/f")]));
    assert_eq!(r, "ERROR: Cannot create directory: Permission denied (os error 13)");
    let r = call(&mut st, &mut disk, "create", &a(&[("filename", "ro")]));
    assert_eq!(r, "ERROR: Cannot create /w/ro: Permission denied (os error 13)");
    let r = call(&mut st, &mut disk, "write", &a(&[("path", "ro"), ("content", "c")]));
    assert_eq!(r, "ERROR: Cannot write /w/ro: Permission denied (os error 13)");
    let r = call(&mut st, &mut disk, "search_file", &a(&[("search_term", "x"), ("file", "ro")]));
    assert_eq!(r, "ERROR: Cannot read /w/ro: Permission denied (os error 13)");
    let r = call(&mut st, &mut disk, "filemap", &a(&[("file_path", "ro")]));
    assert_eq!(r, "ERROR: Cannot read /w/ro: Permission denied (os error 13)");
}

#[test]
fn edit_replace_all_and_failed_write() {
    let mut disk = Disk::new().with("/w/f", "a-a-a\n");
    let mut st = editor();
    call(&mut st, &mut disk, "open", &a(&[("path", "f")]));
    let mut args = a(&[("search", "a"), ("replace", "b")]);
    args.set_bool("replace-all", true);
    call(&mut st, &mut disk, "edit", &args);
    assert_eq!(disk.files["/w/f"], "b-b-b");
    let r = call(&mut st, &mut disk, "edit", &a(&[("search", "b"), ("replace", "b")]));
    assert_eq!(r, "ERROR: 'b' not found in current file");
    disk.broken.push("/w/f".to_string());
    let before = snapshot(&st);
    let r = call(&mut st, &mut disk, "edit", &a(&[("search", "b"), ("replace", "c")]));
    assert_eq!(r, "ERROR: Cannot write /w/f: Permission denied (os error 13)");
    assert_eq!(snapshot(&st), before);
}

#[test]
fn search_stops_at_fifty() {
    let text: String = (0..60).map(|i| format!("hit {}\n", i)).collect();
    let mut disk = Disk::new().with("/w/f", &text).with("/w/g", &text);
    let mut st = editor();
    let r = call(&mut st, &mut disk, "search_file", &a(&[("search_term", "hit"), ("file", "f")]));
    assert!(r.starts_with("Found 50 match(es) in f:\nf:1: hit 0\n"), "{}", r);
    let r = call(&mut st, &mut disk, "search_dir", &a(&[("search_term", "hit")]));
    assert!(r.starts_with("Found 50 match(es):\nf:1: hit 0"), "{}", r);
    assert!(!disk.requests.contains(&"read /w/g".to_string()), "second file not read");
}

#[test]
fn search_dir_skips_binary_files() {
    let mut disk = Disk::new().with("/w/img.png", "needle").with("/w/t.txt", "  needle here  \n");
    let mut st = editor();
    let r = call(&mut st, &mut disk, "search_dir", &a(&[("search_term", "needle")]));
    assert_eq!(r, "Found 1 match(es):\nt.txt:1: needle here");
    let r = call(&mut st, &mut disk, "search_dir", &a(&[("search_term", "absent")]));
    assert_eq!(r, "No matches found for 'absent' in ");
}

#[test]
fn find_file_reports_relative_paths() {
    let mut disk = Disk::new().with("/w/src/a.rs", "").with("/w/b.rs", "");
    let mut st = editor();
    let r = call(&mut st, &mut disk, "find_file", &a(&[("file_name", "*.rs"), ("dir", "src")]));
    assert_eq!(r, "Found 1 file(s):\nsrc/a.rs");
    let r = call(&mut st, &mut disk, "find_file", &a(&[("file_name", "*.py"), ("dir", "src")]));
    assert_eq!(r, "No files found matching '*.py' in src");
}

#[test]
fn filemap_outline_exact() {
    let code = "use x;\n\nfn a() {\n    body();\n}\nstatic Y: u8 = 1;\n";
    let mut disk = Disk::new().with("/w/c.rs", code);
    let mut st = editor();
    let r = call(&mut st, &mut disk, "filemap", &a(&[("file_path", "c.rs")]));
    assert_eq!(
        r,
        "[Filemap: c.rs (6 lines)]\n   1 | use x;\n   2 | \n   3 | fn a() {\n   5 | }\n   6 | static Y: u8 = 1;\n"
    );
}

#[test]
fn allow_outside_messages() {
    let mut disk = Disk::new();
    let mut st = editor();
    let r = call(&mut st, &mut disk, "allow_outside_workspace", &ToolArgs::new());
    assert_eq!(
        r,
        "\u{2705} Access outside workspace enabled. You can now use absolute paths and paths outside '/w'."
    );
    assert!(st.allow_outside());
    assert_eq!(st.resolve("/etc/hosts"), Ok("/etc/hosts".to_string()));
    let mut off = ToolArgs::new();
    off.set_bool("allow", false);
    let r = call(&mut st, &mut disk, "allow_outside_workspace", &off);
    assert_eq!(r, "\u{1f512} Access restricted to workspace '/w' only.");
}

#[test]
fn unknown_tool_named_in_error() {
    let mut disk = Disk::new();
    let mut st = editor();
    assert_eq!(call(&mut st, &mut disk, "frobnicate", &ToolArgs::new()), "ERROR: Unknown tool: frobnicate");
    assert_eq!(call(&mut st, &mut disk, "submit", &ToolArgs::new()), "\u{2705} Submitted successfully.");
}

#[test]
fn huge_line_numbers_are_flagged() {
    let mut disk = Disk::new().with("/w/f", "x\n");
    let mut st = editor();
    call(&mut st, &mut disk, "open", &a(&[("path", "f")]));
    let mut g = ToolArgs::new();
    g.set_uint("line_number", u64::MAX);
    assert!(!can_dispatch(&st, "goto", &g));
    let mut small = ToolArgs::new();
    small.set_uint("line_number", 5);
    assert!(can_dispatch(&st, "goto", &small));
}

fn reply_text(step: Step) -> String {
    match step {
        Step::Reply(s) => s,
        Step::Io(_) => panic!("expected a reply"),
    }
}

#[test]
fn scroll_tools_directly() {
    let text: String = (1..=300).map(|i| format!("L{}\n", i)).collect();
    let mut disk = Disk::new().with("/w/big", &text);
    let mut st = editor();
    call(&mut st, &mut disk, "open", &a(&[("path", "big")]));
    let r = reply_text(tool_scroll_down(&mut st));
    assert_eq!(st.window_start(), 100);
    assert!(r.starts_with("[File: big (scroll down)]\n 101 | L101\n"), "{}", r);
    let r = reply_text(tool_scroll_up(&mut st));
    assert_eq!(st.window_start(), 0);
    assert!(r.starts_with("[File: big (scroll up)]\n   1 | L1\n"), "{}", r);
    let r = reply_text(tool_scroll_up(&mut st));
    assert_eq!(st.window_start(), 0);
    assert!(r.ends_with("(300 lines total, showing 1-100)"), "{}", r);
    let mut fresh = editor();
    assert_eq!(reply_text(tool_scroll_up(&mut fresh)), "ERROR: No file is currently open");
    assert_eq!(reply_text(tool_scroll_down(&mut fresh)), "ERROR: No file is currently open");
}

#[test]
fn error_marker_only_on_failure() {
    let mut disk = Disk::new().with("/w/ERROR: f", "ERROR: inside\n");
    let mut st = editor();
    let r = call(&mut st, &mut disk, "open", &a(&[("path", "ERROR: f")]));
    assert!(r.starts_with("[File: ERROR: f (1 lines)]"), "{}", r);
    let r = call(&mut st, &mut disk, "search_file", &a(&[("search_term", "ERROR")]));
    assert!(r.starts_with("Found 1 match(es) in ERROR: f:"), "{}", r);
    let r = call(&mut st, &mut disk, "search_dir", &a(&[("search_term", "ERROR")]));
    assert!(r.starts_with("Found 1 match(es):"), "{}", r);
    let r = call(&mut st, &mut disk, "nope", &a(&[]));
    assert_eq!(r, "ERROR: Unknown tool: nope");
    let r = call(&mut st, &mut disk, "open", &a(&[("path", "missing")]));
    assert!(r.starts_with("ERROR: Cannot open /w/missing: "), "{}", r);
}

fn request(st: &mut EditorState, disk: &mut Disk, body: &str) -> String {
    let mut step = start_tool_request(st, body).expect("window fits");
    loop {
        match step {
            Step::Reply(s) => return s,
            Step::Io(job) => {
                let o = disk.perform(job.request());
                step = resume(st, job, o);
            },
        }
    }
}

#[test]
fn page_requests_parsed() {
    let mut disk = Disk::new().with("/w/f.txt", "a\nb\nc");
    let mut st = editor();
    let bad = "{not json";
    let want = format!(
        "ERROR: Invalid request: {}",
        serde_json::from_str::<serde_json::Value>(bad).unwrap_err()
    );
    assert_eq!(request(&mut st, &mut disk, bad), want);
    assert_eq!(request(&mut st, &mut disk, "{\"args\": {}}"), "ERROR: Unknown tool: ");
    assert_eq!(request(&mut st, &mut disk, "{\"tool\": 5}"), "ERROR: Unknown tool: ");
    assert_eq!(
        request(&mut st, &mut disk, "{\"tool\": \"open\", \"args\": [1]}"),
        "ERROR: missing required parameter: path"
    );
    let r = request(&mut st, &mut disk, "{\"tool\": \"open\", \"args\": {\"path\": \"f.txt\", \"line_number\": 2}}");
    assert_eq!(r, "[File: f.txt (3 lines)]\n   1 | a\n   2 | b\n   3 | c\n(3 lines total, showing 1-3)");
    assert_eq!(
        request(&mut st, &mut disk, "{\"tool\": \"goto\", \"args\": {\"line_number\": -3}}"),
        "ERROR: missing required parameter: line_number"
    );
    assert_eq!(
        request(&mut st, &mut disk, "{\"tool\": \"goto\", \"args\": {\"line_number\": 2.5}}"),
        "ERROR: missing required parameter: line_number"
    );
    let r = request(&mut st, &mut disk, "{\"tool\": \"allow_outside_workspace\", \"args\": {\"allow\": false}}");
    assert_eq!(r, "\u{1f512} Access restricted to workspace '/w' only.");
    assert!(!st.allow_outside());
    let r = request(&mut st, &mut disk, "{\"tool\": \"submit\"}");
    assert_eq!(r, "\u{2705} Submitted successfully.");
}

#[test]
fn allow_outside_tool_directly() {
    let mut disk = Disk::new().with("/etc/hosts", "127.0.0.1 localhost\n");
    let mut st = editor();
    let r = reply_text(tool_allow_outside(&mut st, &ToolArgs::new()));
    assert_eq!(
        r,
        "\u{2705} Access outside workspace enabled. You can now use absolute paths and paths outside '/w'."
    );
    assert!(st.allow_outside());
    let r = call(&mut st, &mut disk, "open", &a(&[("path", "/etc/hosts")]));
    assert!(r.starts_with("[File: /etc/hosts (1 lines)]"), "{}", r);
    let mut off = ToolArgs::new();
    off.set_bool("allow", false);
    let r = reply_text(tool_allow_outside(&mut st, &off));
    assert_eq!(r, "\u{1f512} Access restricted to workspace '/w' only.");
    let r = call(&mut st, &mut disk, "open", &a(&[("path", "/etc/hosts")]));
    assert!(r.starts_with("ERROR: Access denied: '/etc/hosts' is outside workspace '/w'."), "{}", r);
}
