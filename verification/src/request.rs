//! Tool requests from the page: a JSON body naming the tool and its arguments.

use vstd::prelude::*;
use crate::text::{chars_of, string_of, string_from, push_str, extend};
use crate::args::{ArgModel, ToolArgs};
use crate::editor::EditorState;
use crate::machine::{Step, dispatch, can_dispatch};
use crate::tools::{StepView, dispatch_ok, dispatch_spec};

verus! {

/// One argument value of a request, as far as the tools read it.
pub enum JsonArg {
    /// A JSON string.
    Str(String),
    /// A JSON number that is a non-negative integer fitting `u64`.
    UInt(u64),
    /// A JSON boolean.
    Bool(bool),
    /// Anything else.
    Other,
}

impl View for JsonArg {
    type V = ArgModel;

    open spec fn view(&self) -> ArgModel {
        match self {
            JsonArg::Str(s) => ArgModel::Str(s@),
            JsonArg::UInt(n) => ArgModel::UInt(*n),
            JsonArg::Bool(b) => ArgModel::Bool(*b),
            JsonArg::Other => ArgModel::Other,
        }
    }
}

/// The named argument values of a request, in order.
pub open spec fn arg_views(v: Seq<(String, JsonArg)>) -> Seq<(Seq<char>, ArgModel)> {
    v.map_values(|e: (String, JsonArg)| (e.0@, e.1@))
}

/// What `body` read as JSON holds: the string member `tool` if there is one,
/// and the members of the object `args` (none when there is no such object);
/// or the parse error's message.
pub uninterp spec fn json_tool_request(body: Seq<char>) -> Result<
    (Option<Seq<char>>, Seq<(Seq<char>, ArgModel)>),
    Seq<char>,
>;

pub open spec fn opt_string_view(t: Option<String>) -> Option<Seq<char>> {
    match t {
        Some(s) => Some(s@),
        None => None,
    }
}

/// Trusted: parses `body` with `serde_json::from_str::<serde_json::Value>`,
/// takes the string member `tool` (`Value::get`, `Value::as_str`) and the
/// entries of the object member `args` (`Value::as_object`), each value taken
/// by its variant (a number as `Number::as_u64`); on failure, the error's
/// `Display`. The result is named, not described.
#[verifier::external_body]
fn parse_request(body: &str) -> (r: Result<(Option<String>, Vec<(String, JsonArg)>), String>)
    ensures
        match r {
            Ok((t, a)) => json_tool_request(body@) == Ok::<
                (Option<Seq<char>>, Seq<(Seq<char>, ArgModel)>),
                Seq<char>,
            >((opt_string_view(t), arg_views(a@))),
            Err(e) => json_tool_request(body@) == Err::<
                (Option<Seq<char>>, Seq<(Seq<char>, ArgModel)>),
                Seq<char>,
            >(e@),
        },
{
    let v: serde_json::Value = serde_json::from_str(body).map_err(|e| e.to_string())?;
    let mut args = Vec::new();
    for (k, x) in v.get("args").and_then(|a| a.as_object()).into_iter().flatten() {
        args.push((k.clone(), match x {
            serde_json::Value::String(s) => JsonArg::Str(s.clone()),
            serde_json::Value::Bool(b) => JsonArg::Bool(*b),
            serde_json::Value::Number(n) => n.as_u64().map_or(JsonArg::Other, JsonArg::UInt),
            _ => JsonArg::Other,
        }));
    }
    Ok((v.get("tool").and_then(|t| t.as_str()).map(String::from), args))
}

/// The tool a request names: its `tool` member, or the empty name.
pub open spec fn request_tool(t: Option<Seq<char>>) -> Seq<char> {
    match t {
        Some(s) => s,
        None => Seq::empty(),
    }
}

/// The reply to a request body that is not JSON.
pub open spec fn invalid_request(e: Seq<char>) -> Seq<char> {
    "ERROR: Invalid request: "@ + e
}

/// The tool arguments holding the request's entries, in order.
pub fn tool_args_of(entries: Vec<(String, JsonArg)>) -> (r: ToolArgs)
    ensures
        r@ == arg_views(entries@),
{
    let mut r = ToolArgs::new();
    let mut i: usize = 0;
    while i < entries.len()
        invariant
            i <= entries@.len(),
            r@ == arg_views(entries@.take(i as int)),
        decreases entries@.len() - i,
    {
        let (k, v) = &entries[i];
        match v {
            JsonArg::Str(s) => r.set_str(k.as_str(), s.as_str()),
            JsonArg::UInt(n) => r.set_uint(k.as_str(), *n),
            JsonArg::Bool(b) => r.set_bool(k.as_str(), *b),
            JsonArg::Other => r.set_other(k.as_str()),
        }
        assert(entries@.take(i + 1) =~= entries@.take(i as int).push(entries@[i as int]));
        i = i + 1;
    }
    assert(entries@.take(i as int) =~= entries@);
    r
}

/// Starts the tool call that a request body from the page asks for. A body
/// that is not JSON is answered with `ERROR: Invalid request: ` and the parse
/// error; otherwise the named tool (the empty name when there is none) runs on
/// the request's arguments. `None`, with the state untouched, when the call's
/// window would not fit `usize`.
pub fn start_tool_request(state: &mut EditorState, body: &str) -> (r: Option<Step>)
    ensures
        match json_tool_request(body@) {
            Err(e) => (r matches Some(s) && s@ == StepView::Reply(invalid_request(e)))
                && final(state)@ == old(state)@,
            Ok((t, a)) => if dispatch_ok(old(state)@, request_tool(t), a) {
                r matches Some(s) && (final(state)@, s@) == dispatch_spec(
                    old(state)@,
                    request_tool(t),
                    a,
                )
            } else {
                r is None && final(state)@ == old(state)@
            },
        },
{
    match parse_request(body) {
        Err(e) => {
            let mut out: Vec<char> = Vec::new();
            push_str(&mut out, "ERROR: Invalid request: ");
            extend(&mut out, chars_of(e.as_str()).as_slice());
            let r = Step::Reply(string_of(out.as_slice()));
            assert(r@ == StepView::Reply(invalid_request(e@)));
            Some(r)
        },
        Ok((t, entries)) => {
            let ghost tv = opt_string_view(t);
            let tool = match t {
                Some(s) => s,
                None => {
                    proof {
                        reveal_strlit("");
                    }
                    string_from("")
                },
            };
            assert(tool@ == request_tool(tv));
            let args = tool_args_of(entries);
            if can_dispatch(state, tool.as_str(), &args) {
                Some(dispatch(state, tool.as_str(), &args))
            } else {
                None
            }
        },
    }
}

} // verus!
