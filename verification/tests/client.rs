use granite_tools_api_demo::config::{
    default_endpoint, default_model, default_workdir, escape_template, page_tools_json,
    render_page, send_script, strip_comment_lines, tools_json_for_page, uses_configured_workdir,
    Config,
};
use granite_tools_api_demo::http::{
    header_line, health_response, json_response, messages_response, not_found_response,
    parse_request_line, preflight_response, route, send_response, send_text, sent_body, sent_text,
    Route,
};

const CORS: &str = "Access-Control-Allow-Origin: *\r\nAccess-Control-Allow-Methods: GET, POST, OPTIONS\r\nAccess-Control-Allow-Headers: Content-Type\r\n";

#[test]
fn defaults() {
    assert_eq!(default_endpoint(), "http://localhost:1234");
    assert_eq!(default_model(), "ibm/granite-4-h-tiny");
    assert_eq!(default_workdir(), ".");
    let c = Config::default();
    assert_eq!(c.endpoint, "http://localhost:1234");
    assert_eq!(c.model, "ibm/granite-4-h-tiny");
    assert_eq!(c.workdir, ".");
}

#[test]
fn configured_workdir_use() {
    assert!(!uses_configured_workdir("."));
    assert!(!uses_configured_workdir(""));
    assert!(uses_configured_workdir("./proj"));
    assert!(uses_configured_workdir("/home/me"));
}

#[test]
fn prompt_comments_stripped() {
    let text = "# header\nYou are helpful.\n#note\n  Be brief.  \n\n";
    let want = text.lines().filter(|l| !l.starts_with('#')).collect::<Vec<_>>().join("\n");
    assert_eq!(strip_comment_lines(text), want.trim());
    assert_eq!(strip_comment_lines(text), "You are helpful.\n  Be brief.");
    assert_eq!(strip_comment_lines("# only\n#comments"), "");
}

#[test]
fn template_escaping() {
    let p = "a\\b `c` ${d}";
    assert_eq!(escape_template(p), p.replace('\\', "\\\\").replace('`', "\\`").replace("${", "\\${"));
    assert_eq!(escape_template(p), "a\\\\b \\`c\\` \\${d}");
}

#[test]
fn page_placeholders_filled() {
    let html = "<{{ENDPOINT}}|{{MODEL}}|{{WORKDIR}}|`{{SYSTEM_PROMPT}}`|{{TOOLS_JSON}}|{{MARKED_JS}}|{{MODEL}}>";
    let r = render_page(html, "JS", "http://e", "m", "/w", "say `hi`", "[]");
    assert_eq!(r, "<http://e|m|/w|`say \\`hi\\``|[]|JS|m>");
}

#[test]
fn send_script_escapes() {
    let t = "it's a\\b\r\nline";
    let want = format!(
        "__testSend('{}')",
        t.replace('\\', "\\\\").replace('\'', "\\'").replace('\n', "\\n").replace('\r', "")
    );
    assert_eq!(send_script(t), want);
    assert_eq!(send_script(t), "__testSend('it\\'s a\\\\b\\nline')");
}

#[test]
fn tools_json_checked() {
    let (j, n) = tools_json_for_page("[ {\"a\" : 1}, 2 ]");
    assert_eq!(j, "[{\"a\":1},2]");
    assert_eq!(n, Ok(2));
    let (j, n) = tools_json_for_page("{\"x\": true}");
    assert_eq!(j, "{\"x\":true}");
    assert_eq!(n, Ok(0));
    let (j, n) = tools_json_for_page("[oops");
    assert_eq!(j, "[]");
    assert!(n.is_err());
    let (j, n) = page_tools_json(Err("bad".to_string()));
    assert_eq!(j, "[]");
    assert_eq!(n, Err("bad".to_string()));
    let (j, n) = page_tools_json(Ok(("{}".to_string(), None)));
    assert_eq!(j, "{}");
    assert_eq!(n, Ok(0));
    let (j, n) = page_tools_json(Ok(("[1,2,3]".to_string(), Some(3))));
    assert_eq!(j, "[1,2,3]");
    assert_eq!(n, Ok(3));
    let (j, n) = tools_json_for_page("\"just a string\"");
    assert_eq!(j, "\"just a string\"");
    assert_eq!(n, Ok(0));
}

#[test]
fn request_lines() {
    assert_eq!(
        parse_request_line("GET /api/health HTTP/1.1\r\n"),
        Some(("GET".to_string(), "/api/health".to_string()))
    );
    assert_eq!(parse_request_line("  POST /api/send  \n"), Some(("POST".to_string(), "/api/send".to_string())));
    assert_eq!(parse_request_line("GET  /x"), Some(("GET".to_string(), "".to_string())));
    assert_eq!(parse_request_line("GET\r\n"), None);
    assert_eq!(parse_request_line(""), None);
}

#[test]
fn header_lines() {
    assert_eq!(header_line("Content-Length: 12\r\n", 0), Some(12));
    assert_eq!(header_line("content-length:7", 3), Some(7));
    assert_eq!(header_line("Content-Length: +5", 0), Some(5));
    assert_eq!(header_line("Content-Length: x1", 9), Some(0));
    assert_eq!(header_line("Content-Length: 99999999999999999999999", 9), Some(0));
    assert_eq!(header_line("Host: localhost\r\n", 4), Some(4));
    assert_eq!(header_line("\r\n", 4), None);
    assert_eq!(header_line("", 4), None);
}

#[test]
fn header_names_ignore_case() {
    assert_eq!(header_line("CONTENT-LENGTH: 13\r\n", 0), Some(13));
    assert_eq!(header_line("content-Length:  4", 0), Some(4));
    assert_eq!(header_line("Content-length: 8", 1), Some(8));
    assert_eq!(header_line("CONTENT-LENGTH x", 2), Some(2));
    assert_eq!(header_line("Content-Lengths: 9", 2), Some(2));
}

#[test]
fn routes() {
    assert_eq!(route("OPTIONS", "/anything"), Route::Preflight);
    assert_eq!(route("POST", "/api/send"), Route::Send);
    assert_eq!(route("GET", "/api/messages"), Route::Messages);
    assert_eq!(route("GET", "/api/health"), Route::Health);
    assert_eq!(route("GET", "/api/send"), Route::NotFound);
    assert_eq!(route("POST", "/api/health"), Route::NotFound);
}

#[test]
fn responses_framed() {
    assert_eq!(preflight_response(), format!("HTTP/1.1 204 No Content\r\n{}\r\n", CORS));
    assert_eq!(
        health_response(),
        format!("HTTP/1.1 200 OK\r\n{}Content-Type: application/json\r\nContent-Length: 11\r\n\r\n{{\"ok\":true}}", CORS)
    );
    assert!(not_found_response().starts_with("HTTP/1.1 404 Not Found\r\n"));
    assert!(not_found_response().ends_with("Content-Length: 21\r\n\r\n{\"error\":\"not found\"}"));
    let body = "[\"日本\"]";
    let r = messages_response(body);
    assert!(r.ends_with(&format!("Content-Length: {}\r\n\r\n{}", body.len(), body)));
    assert_eq!(json_response("200 OK", ""), format!("HTTP/1.1 200 OK\r\n{}Content-Type: application/json\r\nContent-Length: 0\r\n\r\n", CORS));
}

#[test]
fn send_requests() {
    assert_eq!(send_text("{\"text\": \"hello\"}"), "hello");
    assert_eq!(send_text("{\"text\": 5}"), "{\"text\": 5}");
    assert_eq!(send_text("plain words"), "plain words");
    assert_eq!(sent_text("raw", None), "raw");
    assert_eq!(sent_text("raw", Some("x".to_string())), "x");
    assert_eq!(sent_body("\"q\""), "{\"ok\":true,\"sent\":\"q\"}");
    let r = send_response("say \"hi\"\n");
    let body = "{\"ok\":true,\"sent\":\"say \\\"hi\\\"\\n\"}";
    assert!(r.ends_with(&format!("Content-Length: {}\r\n\r\n{}", body.len(), body)), "{}", r);
}

#[test]
fn send_request_with_upper_case_length() {
    let text = send_text("{\"text\":\"hi\"}");
    assert_eq!(text, "hi");
    let r = send_response(&text);
    assert!(r.ends_with("Content-Length: 23\r\n\r\n{\"ok\":true,\"sent\":\"hi\"}"), "{}", r);
}

#[test]
fn send_text_other_members_ignored() {
    assert_eq!(send_text("{\"message\": \"x\"}"), "{\"message\": \"x\"}");
    assert_eq!(send_text("[\"text\"]"), "[\"text\"]");
}

#[test]
fn sent_text_is_json_quoted() {
    let text = "a\\b\u{8}\u{c}\t\r\u{1}\u{1f}é\u{7f}/";
    let r = send_response(text);
    let body = "{\"ok\":true,\"sent\":\"a\\\\b\\b\\f\\t\\r\\u0001\\u001fé\u{7f}/\"}";
    assert!(r.ends_with(&format!("Content-Length: {}\r\n\r\n{}", body.len(), body)), "{}", r);
}
