use std::path::{Component, Path, PathBuf};

use granite_tools_api_demo::text::{
    contains_chars, join_chars, lines_chars, replace_all_chars, replace_first_chars, trim_chars,
    push_dec_padded4,
};
use granite_tools_api_demo::{glob_match, normalize_path, EditorState};

fn cv(s: &str) -> Vec<char> {
    s.chars().collect()
}

fn st(v: &[char]) -> String {
    v.iter().collect()
}

const SAMPLES: &[&str] = &[
    "", "\n", "a", "a\n", "a\r\n", "a\r", "\r\n\r\n", "a\n\nb", "\n\n", "x\r\ny\rz\n",
    "  padded  ", "\u{3000}wide\u{a0}", "\t\u{85}mixed\u{2028} ", "tail\n\n",
];

#[test]
fn lines_agree_with_std() {
    for s in SAMPLES {
        let got: Vec<String> = lines_chars(&cv(s)).iter().map(|l| st(l)).collect();
        let want: Vec<String> = s.lines().map(String::from).collect();
        assert_eq!(got, want, "lines of {:?}", s);
    }
}

#[test]
fn trim_agrees_with_std() {
    for s in SAMPLES {
        assert_eq!(st(&trim_chars(&cv(s))), s.trim(), "trim of {:?}", s);
    }
}

#[test]
fn join_of_lines() {
    let ls = vec![cv("a"), cv(""), cv("b")];
    assert_eq!(st(&join_chars(&ls, '\n')), "a\n\nb");
    assert_eq!(st(&join_chars(&Vec::new(), '\n')), "");
}

#[test]
fn replace_agrees_with_std() {
    let cases: &[(&str, &str, &str)] = &[
        ("aaa", "aa", "b"),
        ("abcabc", "bc", "X"),
        ("abc", "", "-"),
        ("", "", "-"),
        ("", "x", "y"),
        ("hello", "zz", "y"),
        ("Hello World\nFoo Bar", "Hello World", "Hello, World!"),
        ("aXbXc", "X", ""),
    ];
    for (s, p, r) in cases {
        assert_eq!(st(&replace_all_chars(&cv(s), &cv(p), &cv(r))), s.replace(p, r), "replace {:?} {:?} {:?}", s, p, r);
        assert_eq!(st(&replace_first_chars(&cv(s), &cv(p), &cv(r))), s.replacen(p, r, 1), "replacen {:?} {:?} {:?}", s, p, r);
    }
}

#[test]
fn contains_agrees_with_std() {
    let cases: &[(&str, &str)] = &[("abc", ""), ("", ""), ("", "a"), ("fn main", "fn "), ("ab", "abc"), ("xxab", "ab")];
    for (s, t) in cases {
        assert_eq!(contains_chars(&cv(s), &cv(t)), s.contains(t), "{:?} contains {:?}", s, t);
    }
}

#[test]
fn padded_line_numbers() {
    for n in [1usize, 9, 10, 99, 100, 999, 1000, 9999, 10000, 123456] {
        let mut out = Vec::new();
        push_dec_padded4(&mut out, n);
        assert_eq!(st(&out), format!("{:>4}", n));
    }
}

/// Folds `.` and `..` the way pushing and popping a `PathBuf` does.
fn std_fold(path: &str) -> String {
    let mut out = PathBuf::new();
    for c in Path::new(path).components() {
        match c {
            Component::ParentDir => {
                out.pop();
            },
            Component::CurDir => {},
            other => out.push(other),
        }
    }
    out.display().to_string()
}

#[test]
fn normalize_agrees_with_path_buf() {
    let cases = [
        "/a/b/../c", "a/./b", "./a", "../a", "/..", "/", "", ".", "a//b/", "/x/y/../../..",
        "a/../..", "/tmp/x/./y/", "../../etc/passwd", "a/b/c/../../d",
    ];
    for p in cases {
        assert_eq!(normalize_path(p), std_fold(p), "normalize {:?}", p);
    }
}

#[test]
fn normalized_paths_are_fixed_points() {
    let cases = [
        "/a/b/../c", "a/./b", "./a", "../a", "/..", "/", "", ".", "a//b/", "/x/y/../../..",
        "a/../..", "/tmp/x/./y/", "../../etc/passwd", "a/b/c/../../d", "./../x/.",
    ];
    for p in cases {
        let n = normalize_path(p);
        assert_eq!(normalize_path(&n), n, "idempotent on {:?}", p);
        assert_eq!(n.starts_with('/'), p.starts_with('/'), "root kept for {:?}", p);
        assert!(!n.split('/').any(|c| c == "." || c == ".."), "no . or .. in {:?}", n);
    }
    assert_eq!(normalize_path("./../x/."), "x");
}

#[test]
fn resolve_joins_and_guards() {
    let st = EditorState::new("/work".to_string());
    assert_eq!(st.resolve("a/../b.txt"), Ok("/work/b.txt".to_string()));
    assert_eq!(st.resolve("./sub//c"), Ok("/work/sub/c".to_string()));
    assert_eq!(st.resolve("/work/x"), Ok("/work/x".to_string()));
    let e = st.resolve("../w2/f").unwrap_err();
    assert_eq!(
        e,
        "Access denied: '../w2/f' is outside workspace '/work'. Use allow_outside_workspace tool to enable access."
    );
    assert!(st.resolve("/workspace/f").is_err(), "a longer name is not inside");
}

#[test]
fn resolve_with_workspace_not_in_normal_form() {
    // `./proj` keeps its leading `.` component, so nothing normalized starts with it.
    let st = EditorState::new("./proj".to_string());
    assert!(st.resolve("a.txt").is_err());
    let st2 = EditorState::new("proj/".to_string());
    assert_eq!(st2.resolve("a.txt"), Ok("proj/a.txt".to_string()));
}

/// Brute-force wildcard matching by trying every split.
fn brute(p: &[char], t: &[char]) -> bool {
    if p.is_empty() {
        return t.is_empty();
    }
    match p[0] {
        '*' => (0..=t.len()).any(|i| brute(&p[1..], &t[i..])),
        '?' => !t.is_empty() && brute(&p[1..], &t[1..]),
        c => !t.is_empty() && t[0] == c && brute(&p[1..], &t[1..]),
    }
}

#[test]
fn glob_agrees_with_brute_force() {
    let pats = ["*", "a*", "*a", "a?c", "*b*", "", "?", "**", "a*c*e"];
    let names = ["", "a", "abc", "abcde", "cab", "b", "aXcYe"];
    for p in pats {
        for n in names {
            assert_eq!(glob_match(p, n), brute(&cv(p), &cv(n)), "{:?} vs {:?}", p, n);
        }
    }
}
