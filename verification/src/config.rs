//! The chat client's settings and the text it prepares for the page.

use vstd::prelude::*;
use crate::text::{
    views, starts_with, join, lines_of, trim, replace_all, chars_of, string_of, string_from,
    lines_chars, join_chars, trim_chars, replace_all_chars, push_str, extend,
};

verus! {

/// The chat endpoint used when the settings name none.
pub fn default_endpoint() -> (r: String)
    ensures
        r@ == "http://localhost:1234"@,
{
    string_from("http://localhost:1234")
}

/// The model used when the settings name none.
pub fn default_model() -> (r: String)
    ensures
        r@ == "ibm/granite-4-h-tiny"@,
{
    string_from("ibm/granite-4-h-tiny")
}

/// The workspace used when the settings name none (meaning: ask the user).
pub fn default_workdir() -> (r: String)
    ensures
        r@ == "."@,
{
    string_from(".")
}

/// The settings of the chat client.
pub struct Config {
    pub endpoint: String,
    pub model: String,
    pub workdir: String,
}

impl Default for Config {
    fn default() -> (r: Config)
        ensures
            r.endpoint@ == "http://localhost:1234"@,
            r.model@ == "ibm/granite-4-h-tiny"@,
            r.workdir@ == "."@,
    {
        Config { endpoint: default_endpoint(), model: default_model(), workdir: default_workdir() }
    }
}

/// The configured workspace is used as given (rather than asking the user for one).
pub open spec fn configured_spec(configured: Seq<char>) -> bool {
    configured != "."@ && configured.len() != 0
}

/// Whether the configured workspace is to be used as given: it is neither
/// empty nor `.`.
pub fn uses_configured_workdir(configured: &str) -> (r: bool)
    ensures
        r == configured_spec(configured@),
{
    let c = chars_of(configured);
    let dot = chars_of(".");
    !crate::text::same(c.as_slice(), dot.as_slice()) && c.len() != 0
}

/// The lines that do not begin with `#`.
pub open spec fn uncommented(ls: Seq<Seq<char>>) -> Seq<Seq<char>>
    decreases ls.len(),
{
    if ls.len() == 0 {
        Seq::empty()
    } else {
        let before = uncommented(ls.drop_last());
        if starts_with(ls.last(), seq!['#']) {
            before
        } else {
            before.push(ls.last())
        }
    }
}

/// A prompt file without its comment lines, trimmed.
pub open spec fn strip_comments_spec(text: Seq<char>) -> Seq<char> {
    trim(join(uncommented(lines_of(text)), seq!['\n']))
}

/// Drops the lines that begin with `#`, joins the rest with line breaks and trims the result.
pub fn strip_comment_lines(text: &str) -> (r: String)
    ensures
        r@ == strip_comments_spec(text@),
{
    let t = chars_of(text);
    let ls = lines_chars(t.as_slice());
    let ghost lv = views(ls@);
    let mut kept: Vec<Vec<char>> = Vec::new();
    let mut i: usize = 0;
    assert(lv.take(0) =~= Seq::<Seq<char>>::empty());
    while i < ls.len()
        invariant
            i <= ls@.len(),
            lv == views(ls@),
            views(kept@) == uncommented(lv.take(i as int)),
        decreases ls@.len() - i,
    {
        let ghost before = views(kept@);
        let line = &ls[i];
        let n = line.len();
        let comment = n > 0 && line[0] == '#';
        proof {
            assert(lv.take(i + 1).drop_last() =~= lv.take(i as int));
            assert(lv.take(i + 1).last() == line@);
            if comment {
                assert(line@.take(1) =~= seq!['#']);
            }
            if starts_with(line@, seq!['#']) {
                assert(line@.take(1)[0] == '#');
            }
        }
        if !comment {
            let c = crate::text::copy(line.as_slice());
            let ghost cv = c@;
            kept.push(c);
            assert(views(kept@) =~= before.push(cv));
        }
        i = i + 1;
    }
    assert(lv.take(i as int) =~= lv);
    let joined = join_chars(&kept, '\n');
    let trimmed = trim_chars(joined.as_slice());
    string_of(trimmed.as_slice())
}

/// The system prompt made safe inside a JavaScript template literal.
pub open spec fn escape_template_spec(s: Seq<char>) -> Seq<char> {
    replace_all(replace_all(replace_all(s, "\\"@, "\\\\"@), "`"@, "\\`"@), "${"@, "\\${"@)
}

fn replace_lit(s: &[char], pat: &str, rep: &str) -> (r: Vec<char>)
    ensures
        r@ == replace_all(s@, pat@, rep@),
{
    let p = chars_of(pat);
    let q = chars_of(rep);
    replace_all_chars(s, p.as_slice(), q.as_slice())
}

fn replace_with(s: &[char], pat: &str, rep: &[char]) -> (r: Vec<char>)
    ensures
        r@ == replace_all(s@, pat@, rep@),
{
    let p = chars_of(pat);
    replace_all_chars(s, p.as_slice(), rep)
}

/// Escapes backslashes, backquotes and `${` so that the text can stand inside a
/// JavaScript template literal.
pub fn escape_template(s: &str) -> (r: String)
    ensures
        r@ == escape_template_spec(s@),
{
    let v = chars_of(s);
    let a = replace_lit(v.as_slice(), "\\", "\\\\");
    let b = replace_lit(a.as_slice(), "`", "\\`");
    let c = replace_lit(b.as_slice(), "${", "\\${");
    string_of(c.as_slice())
}

/// The chat page with its placeholders filled in.
pub open spec fn render_page_spec(
    html: Seq<char>,
    marked_js: Seq<char>,
    endpoint: Seq<char>,
    model: Seq<char>,
    workdir: Seq<char>,
    system_prompt: Seq<char>,
    tools_json: Seq<char>,
) -> Seq<char> {
    let a = replace_all(html, "{{MARKED_JS}}"@, marked_js);
    let b = replace_all(a, "{{ENDPOINT}}"@, endpoint);
    let c = replace_all(b, "{{MODEL}}"@, model);
    let d = replace_all(c, "{{WORKDIR}}"@, workdir);
    let e = replace_all(d, "{{SYSTEM_PROMPT}}"@, escape_template_spec(system_prompt));
    replace_all(e, "{{TOOLS_JSON}}"@, tools_json)
}

/// Fills the page template: each placeholder is replaced, in this order, by the
/// script library, the endpoint, the model, the workspace, the escaped system
/// prompt and the tool definitions.
pub fn render_page(
    html: &str,
    marked_js: &str,
    endpoint: &str,
    model: &str,
    workdir: &str,
    system_prompt: &str,
    tools_json: &str,
) -> (r: String)
    ensures
        r@ == render_page_spec(
            html@,
            marked_js@,
            endpoint@,
            model@,
            workdir@,
            system_prompt@,
            tools_json@,
        ),
{
    let h = chars_of(html);
    let a = replace_with(h.as_slice(), "{{MARKED_JS}}", chars_of(marked_js).as_slice());
    let b = replace_with(a.as_slice(), "{{ENDPOINT}}", chars_of(endpoint).as_slice());
    let c = replace_with(b.as_slice(), "{{MODEL}}", chars_of(model).as_slice());
    let d = replace_with(c.as_slice(), "{{WORKDIR}}", chars_of(workdir).as_slice());
    let p = escape_template(system_prompt);
    let e = replace_with(d.as_slice(), "{{SYSTEM_PROMPT}}", chars_of(p.as_str()).as_slice());
    let f = replace_with(e.as_slice(), "{{TOOLS_JSON}}", chars_of(tools_json).as_slice());
    string_of(f.as_slice())
}

/// A message made safe inside a single-quoted JavaScript string (carriage returns dropped).
pub open spec fn escape_quoted_spec(s: Seq<char>) -> Seq<char> {
    replace_all(replace_all(replace_all(replace_all(s, "\\"@, "\\\\"@), "'"@, "\\'"@), "\n"@, "\\n"@), "\r"@, ""@)
}

/// The script that types `text` into the chat and sends it.
pub open spec fn send_script_spec(text: Seq<char>) -> Seq<char> {
    "__testSend('"@ + escape_quoted_spec(text) + "')"@
}

/// The script that sends `text` from the page, with the text escaped for a
/// single-quoted JavaScript string.
pub fn send_script(text: &str) -> (r: String)
    ensures
        r@ == send_script_spec(text@),
{
    let v = chars_of(text);
    let a = replace_lit(v.as_slice(), "\\", "\\\\");
    let b = replace_lit(a.as_slice(), "'", "\\'");
    let c = replace_lit(b.as_slice(), "\n", "\\n");
    let d = replace_lit(c.as_slice(), "\r", "");
    let mut out: Vec<char> = Vec::new();
    push_str(&mut out, "__testSend('");
    extend(&mut out, d.as_slice());
    push_str(&mut out, "')");
    string_of(out.as_slice())
}


/// The compact JSON text of `text` read as JSON, with the number of items when it
/// is an array, or the parse error's message.
pub uninterp spec fn json_reserialized(text: Seq<char>) -> Result<(Seq<char>, Option<usize>), Seq<char>>;

/// Trusted: parses `text` with `serde_json::from_str::<serde_json::Value>`
/// and writes the value back with its `Display` (compact JSON), with the
/// length of the array when the value is one (`Value::as_array`); on failure,
/// the error's `Display`. The result is named, not described.
#[verifier::external_body]
fn reserialize(text: &str) -> (r: Result<(String, Option<usize>), String>)
    ensures
        match r {
            Ok((j, n)) => json_reserialized(text@) == Ok::<(Seq<char>, Option<usize>), Seq<char>>((j@, n)),
            Err(e) => json_reserialized(text@) == Err::<(Seq<char>, Option<usize>), Seq<char>>(e@),
        },
{
    match serde_json::from_str::<serde_json::Value>(text) {
        Ok(v) => Ok((v.to_string(), v.as_array().map(|a| a.len()))),
        Err(e) => Err(e.to_string()),
    }
}

/// The tool definitions the page gets, given how reading them as JSON went:
/// the compact JSON, or an empty list when they do not parse; with the count of
/// tools (the length of the array, 0 when the JSON is not an array) or the
/// parse error.
pub fn page_tools_json(parsed: Result<(String, Option<usize>), String>) -> (r: (String, Result<usize, String>))
    ensures
        match parsed {
            Ok((j, n)) => r.0@ == j@ && r.1 == Ok::<usize, String>(
                match n {
                    Some(k) => k,
                    None => 0,
                },
            ),
            Err(e) => r.0@ == "[]"@ && (r.1 matches Err(x) && x@ == e@),
        },
{
    match parsed {
        Ok((j, Some(n))) => (j, Ok(n)),
        Ok((j, None)) => (j, Ok(0)),
        Err(e) => (string_from("[]"), Err(e)),
    }
}

/// Checks the tool definitions: their compact JSON, or an empty list when they
/// are not JSON; with the count of tools (0 when the JSON is not an array) or
/// the parse error.
pub fn tools_json_for_page(text: &str) -> (r: (String, Result<usize, String>))
    ensures
        match json_reserialized(text@) {
            Ok((j, n)) => r.0@ == j && r.1 == Ok::<usize, String>(
                match n {
                    Some(k) => k,
                    None => 0,
                },
            ),
            Err(e) => r.0@ == "[]"@ && (r.1 matches Err(x) && x@ == e),
        },
{
    let parsed = reserialize(text);
    page_tools_json(parsed)
}

} // verus!
