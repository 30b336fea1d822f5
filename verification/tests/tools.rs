use std::collections::{BTreeMap, BTreeSet};

use granite_tools_api_demo::{
    can_dispatch, can_resume, dispatch, glob_match, resume, EditorState, FsRequest, Outcome,
    Step, ToolArgs, WINDOW_SIZE,
};

const WORKDIR: &str = "/work";

/// An in-memory file system standing in for the disk.
struct MemFs {
    files: BTreeMap<String, String>,
    dirs: BTreeSet<String>,
}

fn parent_of(p: &str) -> Option<String> {
    match p.rfind('/') {
        Some(0) => Some("/".to_string()),
        Some(i) => Some(p[..i].to_string()),
        None => None,
    }
}

impl MemFs {
    fn new() -> MemFs {
        let mut dirs = BTreeSet::new();
        dirs.insert("/".to_string());
        dirs.insert(WORKDIR.to_string());
        MemFs { files: BTreeMap::new(), dirs }
    }

    fn make_dirs(&mut self, p: &str) {
        let mut cur = Some(p.to_string());
        while let Some(d) = cur {
            if d.is_empty() {
                break;
            }
            cur = if d == "/" { None } else { parent_of(&d) };
            self.dirs.insert(d);
        }
    }

    /// Writes a file below the workspace, with its directories.
    fn put(&mut self, rel: &str, content: &str) {
        let full = format!("{}/{}", WORKDIR, rel);
        if let Some(d) = parent_of(&full) {
            self.make_dirs(&d);
        }
        self.files.insert(full, content.to_string());
    }

    fn get(&self, rel: &str) -> Option<String> {
        self.files.get(&format!("{}/{}", WORKDIR, rel)).cloned()
    }

    fn perform(&mut self, req: FsRequest) -> Outcome {
        match req {
            FsRequest::Read(p) => match self.files.get(&p) {
                Some(c) => Outcome::Text(c.clone()),
                None => Outcome::Failed("No such file or directory (os error 2)".to_string()),
            },
            FsRequest::MakeDirs(p) => {
                self.make_dirs(&p);
                Outcome::Done
            },
            FsRequest::Exists(p) => Outcome::Exists(self.files.contains_key(&p) || self.dirs.contains(&p)),
            FsRequest::Write(p, c) => {
                let ok = match parent_of(&p) {
                    Some(d) => self.dirs.contains(&d),
                    None => true,
                };
                if ok {
                    self.files.insert(p, c);
                    Outcome::Done
                } else {
                    Outcome::Failed("No such file or directory (os error 2)".to_string())
                }
            },
            FsRequest::ListFiles(root) => {
                let prefix = if root.ends_with('/') { root.clone() } else { format!("{}/", root) };
                let found: Vec<String> = self
                    .files
                    .keys()
                    .filter(|k| k.starts_with(&prefix) || **k == root)
                    .filter(|k| k[prefix.len().min(k.len())..].matches('/').count() < 10)
                    .cloned()
                    .collect();
                Outcome::Files(found)
            },
        }
    }
}

/// Runs a tool call to its answer, performing its file-system operations.
fn run(st: &mut EditorState, fs: &mut MemFs, tool: &str, args: &ToolArgs) -> String {
    assert!(can_dispatch(st, tool, args));
    let mut step = dispatch(st, tool, args);
    loop {
        match step {
            Step::Reply(s) => return s,
            Step::Io(job) => {
                let outcome = fs.perform(job.request());
                assert!(job.accepts(&outcome));
                assert!(can_resume(st, &job, &outcome));
                step = resume(st, job, outcome);
            },
        }
    }
}

fn setup() -> (MemFs, EditorState) {
    (MemFs::new(), EditorState::new(WORKDIR.to_string()))
}

fn strs(pairs: &[(&str, &str)]) -> ToolArgs {
    let mut a = ToolArgs::new();
    for (k, v) in pairs {
        a.set_str(k, v);
    }
    a
}

fn big_file() -> String {
    (1..=200).map(|i| format!("Line {}\n", i)).collect()
}

#[test]
fn test_glob_match() {
    assert!(glob_match("*.rs", "main.rs"));
    assert!(glob_match("*.rs", "lib.rs"));
    assert!(!glob_match("*.rs", "main.py"));
    assert!(glob_match("test_*", "test_utils"));
    assert!(glob_match("*", "anything"));
    assert!(glob_match("config.?aml", "config.yaml"));
    assert!(!glob_match("config.?aml", "config.toml"));
}

#[test]
fn test_create_and_open() {
    let (mut fs, mut st) = setup();
    let res = run(&mut st, &mut fs, "create", &strs(&[("filename", "hello.txt")]));
    assert!(res.contains("new file created"), "create result: {}", res);

    let res = run(&mut st, &mut fs, "open", &strs(&[("path", "hello.txt")]));
    assert!(res.contains("hello.txt"), "open result: {}", res);
    assert!(res.contains("(empty file)") || res.contains("0 lines") || res.contains("(empty"),
        "empty file: {}", res);
}

#[test]
fn test_write_creates_file_with_content() {
    let (mut fs, mut st) = setup();
    let res = run(&mut st, &mut fs, "write", &strs(&[
        ("path", "hello.py"),
        ("content", "print(\"hi\")\nprint(\"bye\")\n"),
    ]));
    assert!(res.contains("new file written"), "write result: {}", res);
    assert!(res.contains("2 lines"), "two lines: {}", res);
    let actual = fs.get("hello.py").unwrap();
    assert_eq!(actual, "print(\"hi\")\nprint(\"bye\")\n");
}

#[test]
fn test_write_overwrites_existing_file() {
    let (mut fs, mut st) = setup();
    fs.put("a.txt", "old content");
    let res = run(&mut st, &mut fs, "write", &strs(&[("path", "a.txt"), ("content", "new content")]));
    assert!(res.contains("overwritten"), "overwrite result: {}", res);
    let actual = fs.get("a.txt").unwrap();
    assert_eq!(actual, "new content");
}

#[test]
fn test_write_blocks_outside_workspace() {
    let (mut fs, mut st) = setup();
    let res = run(&mut st, &mut fs, "write", &strs(&[("path", "/etc/no-way"), ("content", "x")]));
    assert!(res.contains("Access denied"), "should be blocked: {}", res);
}

#[test]
fn test_insert_and_open_with_content() {
    let (mut fs, mut st) = setup();
    run(&mut st, &mut fs, "create", &strs(&[("filename", "test.py")]));
    let res = run(&mut st, &mut fs, "insert", &strs(&[("text", "line1\nline2\nline3")]));
    assert!(res.contains("text inserted"), "insert result: {}", res);
    let res = run(&mut st, &mut fs, "open", &strs(&[("path", "test.py")]));
    assert!(res.contains("3 lines"), "three lines: {}", res);
    assert!(res.contains("line1"), "has line1: {}", res);
    assert!(res.contains("line3"), "has line3: {}", res);
}

#[test]
fn test_edit_replace() {
    let (mut fs, mut st) = setup();
    fs.put("target.txt", "Hello World\nFoo Bar\n");
    run(&mut st, &mut fs, "open", &strs(&[("path", "target.txt")]));
    let res = run(&mut st, &mut fs, "edit", &strs(&[
        ("search", "Hello World"),
        ("replace", "Hello, World!"),
    ]));
    assert!(res.contains("edited"), "edit result: {}", res);
    assert!(res.contains("Hello, World!"), "replaced text shown: {}", res);
    let content = fs.get("target.txt").unwrap();
    assert!(content.contains("Hello, World!"), "changed on disk: {}", content);
    assert!(content.contains("Foo Bar"), "other lines kept: {}", content);
}

#[test]
fn test_edit_not_found() {
    let (mut fs, mut st) = setup();
    fs.put("a.txt", "aaa\nbbb\n");
    run(&mut st, &mut fs, "open", &strs(&[("path", "a.txt")]));
    let res = run(&mut st, &mut fs, "edit", &strs(&[("search", "nonexistent"), ("replace", "xxx")]));
    assert!(res.contains("ERROR"), "missing text is an error: {}", res);
}

#[test]
fn test_search_file() {
    let (mut fs, mut st) = setup();
    fs.put("code.rs", "fn main() {\n    println!(\"hello\");\n}\nfn helper() {}\n");
    let res = run(&mut st, &mut fs, "search_file", &strs(&[("search_term", "fn "), ("file", "code.rs")]));
    assert!(res.contains("2 match"), "two hits: {}", res);
    assert!(res.contains("fn main"), "main: {}", res);
    assert!(res.contains("fn helper"), "helper: {}", res);
}

#[test]
fn test_search_dir() {
    let (mut fs, mut st) = setup();
    fs.put("a.txt", "TODO: fix this\nDone\n");
    fs.put("sub/b.txt", "TODO: another\nOK\nTODO: third\n");
    let res = run(&mut st, &mut fs, "search_dir", &strs(&[("search_term", "TODO")]));
    assert!(res.contains("3 match"), "three hits: {}", res);
}

#[test]
fn test_find_file() {
    let (mut fs, mut st) = setup();
    fs.put("src/main.rs", "");
    fs.put("src/lib.rs", "");
    fs.put("README.md", "");
    let res = run(&mut st, &mut fs, "find_file", &strs(&[("file_name", "*.rs")]));
    assert!(res.contains("2 file"), "two .rs files: {}", res);
    assert!(res.contains("main.rs"), "main.rs: {}", res);
    assert!(res.contains("lib.rs"), "lib.rs: {}", res);
    let res2 = run(&mut st, &mut fs, "find_file", &strs(&[("file_name", "*.md")]));
    assert!(res2.contains("1 file"), "one .md file: {}", res2);
}

#[test]
fn test_scroll() {
    let (mut fs, mut st) = setup();
    fs.put("big.txt", &big_file());
    run(&mut st, &mut fs, "open", &strs(&[("path", "big.txt")]));
    assert_eq!(st.window_start(), 0);

    let res = run(&mut st, &mut fs, "scroll_down", &ToolArgs::new());
    assert!(res.contains("scroll down"), "scroll_down result: {}", res);
    assert_eq!(st.window_start(), WINDOW_SIZE, "one scroll_down moves a full window");

    run(&mut st, &mut fs, "scroll_up", &ToolArgs::new());
    assert_eq!(st.window_start(), 0, "scroll_up goes back to the top");
}

#[test]
fn test_goto() {
    let (mut fs, mut st) = setup();
    fs.put("big.txt", &big_file());
    run(&mut st, &mut fs, "open", &strs(&[("path", "big.txt")]));
    let mut a = ToolArgs::new();
    a.set_uint("line_number", 150);
    let res = run(&mut st, &mut fs, "goto", &a);
    assert!(res.contains("goto line 150"), "goto result: {}", res);
    assert!(res.contains("Line 150"), "line 150 shown: {}", res);
}

#[test]
fn test_insert_at_line() {
    let (mut fs, mut st) = setup();
    fs.put("ins.txt", "AAA\nBBB\nCCC\n");
    run(&mut st, &mut fs, "open", &strs(&[("path", "ins.txt")]));
    let mut a = strs(&[("text", "INSERTED")]);
    a.set_uint("line", 1);
    let res = run(&mut st, &mut fs, "insert", &a);
    assert!(res.contains("text inserted"), "insert result: {}", res);
    let content = fs.get("ins.txt").unwrap();
    let lines: Vec<&str> = content.lines().collect();
    assert_eq!(lines[0], "AAA", "line 0 kept");
    assert_eq!(lines[1], "INSERTED", "inserted at line 1");
    assert_eq!(lines[2], "BBB", "BBB moved down");
}

#[test]
fn test_filemap() {
    let (mut fs, mut st) = setup();
    let code = r#"fn main() {
    println!("hello");
    let x = 1;
}

fn helper() {
    // body
}

pub struct Config {
    name: String,
}
"#;
    fs.put("code.rs", code);
    let res = run(&mut st, &mut fs, "filemap", &strs(&[("file_path", "code.rs")]));
    assert!(res.contains("Filemap"), "filemap result: {}", res);
    assert!(res.contains("fn main"), "main shown: {}", res);
    assert!(res.contains("fn helper"), "helper shown: {}", res);
}

#[test]
fn test_dispatch_unknown_tool() {
    let (mut fs, mut st) = setup();
    let res = run(&mut st, &mut fs, "nonexistent_tool", &ToolArgs::new());
    assert!(res.contains("ERROR"), "unknown tool is an error: {}", res);
    assert!(res.contains("Unknown tool"), "message: {}", res);
}

#[test]
fn test_open_nonexistent_file() {
    let (mut fs, mut st) = setup();
    let res = run(&mut st, &mut fs, "open", &strs(&[("path", "does_not_exist.txt")]));
    assert!(res.contains("ERROR"), "missing file is an error: {}", res);
}

#[test]
fn test_edit_without_open() {
    let (mut fs, mut st) = setup();
    let res = run(&mut st, &mut fs, "edit", &strs(&[("search", "a"), ("replace", "b")]));
    assert!(res.contains("ERROR"), "edit without a file is an error: {}", res);
}

#[test]
fn test_create_with_subdirectory() {
    let (mut fs, mut st) = setup();
    let res = run(&mut st, &mut fs, "create", &strs(&[("filename", "deep/nested/file.txt")]));
    assert!(res.contains("new file created"), "subdirectories made: {}", res);
    assert!(fs.get("deep/nested/file.txt").is_some(), "the file exists");
}

#[test]
fn test_submit() {
    let (mut fs, mut st) = setup();
    let res = run(&mut st, &mut fs, "submit", &ToolArgs::new());
    assert!(res.contains("Submitted"), "submit result: {}", res);
}

#[test]
fn test_absolute_path_blocked() {
    let (mut fs, mut st) = setup();
    let res = run(&mut st, &mut fs, "open", &strs(&[("path", "/etc/passwd")]));
    assert!(res.contains("ERROR"), "absolute path blocked: {}", res);
    assert!(res.contains("Access denied"), "message: {}", res);
}

#[test]
fn test_parent_traversal_blocked() {
    let (mut fs, mut st) = setup();
    let res = run(&mut st, &mut fs, "open", &strs(&[("path", "../../etc/passwd")]));
    assert!(res.contains("ERROR"), "../ escape blocked: {}", res);
    assert!(res.contains("Access denied"), "message: {}", res);
}

#[test]
fn test_create_absolute_path_blocked() {
    let (mut fs, mut st) = setup();
    let res = run(&mut st, &mut fs, "create", &strs(&[("filename", "/tmp/evil.sh")]));
    assert!(res.contains("ERROR"), "create blocks absolute paths too: {}", res);
    assert!(res.contains("Access denied"), "message: {}", res);
}

#[test]
fn test_search_dir_outside_blocked() {
    let (mut fs, mut st) = setup();
    let res = run(&mut st, &mut fs, "search_dir", &strs(&[("search_term", "x"), ("dir", "/usr")]));
    assert!(res.contains("ERROR"), "search_dir blocks outside dirs: {}", res);
}

#[test]
fn test_find_file_outside_blocked() {
    let (mut fs, mut st) = setup();
    let res = run(&mut st, &mut fs, "find_file", &strs(&[("file_name", "*.txt"), ("dir", "/tmp")]));
    assert!(res.contains("ERROR"), "find_file blocks outside dirs: {}", res);
}

#[test]
fn test_allow_outside_enables_absolute() {
    let (mut fs, mut st) = setup();
    let res = run(&mut st, &mut fs, "create", &strs(&[("filename", "/tmp/gnpd-test-allow.txt")]));
    assert!(res.contains("ERROR"), "blocked by default: {}", res);

    let mut a = ToolArgs::new();
    a.set_bool("allow", true);
    let res = run(&mut st, &mut fs, "allow_outside_workspace", &a);
    assert!(res.contains("enabled"), "allow_outside on: {}", res);

    let res = run(&mut st, &mut fs, "create", &strs(&[("filename", "still-ok.txt")]));
    assert!(res.contains("new file created"), "relative paths still work: {}", res);
    assert!(fs.get("still-ok.txt").is_some());

    let mut a = ToolArgs::new();
    a.set_bool("allow", false);
    let res = run(&mut st, &mut fs, "allow_outside_workspace", &a);
    assert!(res.contains("restricted"), "allow_outside off: {}", res);

    let res = run(&mut st, &mut fs, "open", &strs(&[("path", "/etc/hosts")]));
    assert!(res.contains("ERROR"), "blocked again: {}", res);
}

#[test]
fn test_relative_within_workdir_ok() {
    let (mut fs, mut st) = setup();
    fs.put("sub/file.txt", "content");
    let res = run(&mut st, &mut fs, "open", &strs(&[("path", "sub/file.txt")]));
    assert!(!res.contains("ERROR"), "relative path inside the workspace allowed: {}", res);
    assert!(res.contains("content"), "content readable: {}", res);
}
