use minihttpd::cgi::{
    build_cgi_env, frame_cgi_output, query_params_of, request_body_length, script_allowed,
    script_outcome, script_response, ScriptRun,
};
use minihttpd::classify::get_content_type;
use minihttpd::handler::{
    dir_listing_response, directory_listing, dispatch_get, dispatch_post, empty_response,
    forbidden_response, jail_response, method_kind, static_file_response, Action, FileStat,
    MethodKind,
};
use minihttpd::headers::{
    content_length_of, header_lookup, parse_header_line, parse_usize, HeaderLine,
};
use minihttpd::jail::{is_readable, jail_check, JailOutcome};
use minihttpd::request::{parse_request_line, split_query_string};
use minihttpd::response::{get_status, render_response};
use minihttpd::text::trim;

fn comps(parts: &[&str]) -> Option<Vec<String>> {
    Some(parts.iter().map(|s| s.to_string()).collect())
}

fn pairs(items: &[(&str, &str)]) -> Vec<(String, String)> {
    items.iter().map(|(k, v)| (k.to_string(), v.to_string())).collect()
}

// ----- jail -----

#[test]
fn jail_rejects_syntactic_escape() {
    // canonical target outside the canonical root
    let root = comps(&["srv", "www"]);
    let target = comps(&["srv", "secret", "key"]);
    assert_eq!(jail_check(&root, &target), JailOutcome::Escaped);
}

#[test]
fn jail_rejects_symlink_escape() {
    // a symlink inside the root canonicalizes to a path outside it
    let root = comps(&["home", "user", "www"]);
    let target = comps(&["etc", "passwd"]);
    assert_eq!(jail_check(&root, &target), JailOutcome::Escaped);
}

#[test]
fn jail_authorizes_path_under_root() {
    let root = comps(&["srv", "www"]);
    let target = comps(&["srv", "www", "index.html"]);
    assert_eq!(jail_check(&root, &target), JailOutcome::Authorized);
    assert_eq!(jail_check(&root, &root.clone()), JailOutcome::Authorized);
}

#[test]
fn jail_rejects_sibling_with_prefix_name() {
    // "/srv/wwwx" is not under "/srv/www" even though the string extends it
    let root = comps(&["srv", "www"]);
    let target = comps(&["srv", "wwwx", "f"]);
    assert_eq!(jail_check(&root, &target), JailOutcome::Escaped);
}

#[test]
fn jail_maps_canonicalization_failures() {
    let root = comps(&["srv", "www"]);
    assert_eq!(jail_check(&root, &None), JailOutcome::NotFound);
    assert_eq!(jail_check(&None, &comps(&["x"])), JailOutcome::Misconfigured);
}

#[test]
fn jail_responses_carry_the_fixed_bodies() {
    let forbidden = jail_response(JailOutcome::Escaped).unwrap();
    assert_eq!(
        forbidden,
        b"HTTP/1.0 403 Forbidden\r\nConnection: close\r\n\r\n<html>403 Forbidden</html>".to_vec()
    );
    let not_found = jail_response(JailOutcome::NotFound).unwrap();
    assert_eq!(
        not_found,
        b"HTTP/1.0 404 Not Found\r\nConnection: close\r\n\r\n<html>404 Not Found</html>".to_vec()
    );
    let err = jail_response(JailOutcome::Misconfigured).unwrap();
    assert_eq!(
        err,
        b"HTTP/1.0 500 Internal Server Error\r\nConnection: close\r\n\r\n<html>500 Internal Server Error</html>"
            .to_vec()
    );
    assert!(jail_response(JailOutcome::Authorized).is_none());
}

// ----- query string and CGI environment -----

#[test]
fn query_env_drops_empty_segments() {
    let env = query_params_of("&a=1&&b=2&");
    assert_eq!(env, pairs(&[("Query_a", "1"), ("Query_b", "2")]));
    for (name, _) in &env {
        assert!(!name.is_empty());
    }
}

#[test]
fn query_env_never_has_empty_names() {
    for q in ["", "&", "&&&", "=v", "a", "a&b", "a=1&=x&", "&="] {
        for (name, _) in query_params_of(q) {
            assert!(!name.is_empty(), "query {:?} produced an empty name", q);
        }
    }
}

#[test]
fn query_env_pair_shapes() {
    assert_eq!(query_params_of("a"), pairs(&[]));
    assert_eq!(query_params_of("a="), pairs(&[("Query_a", "")]));
    assert_eq!(query_params_of("=v"), pairs(&[("Query_", "v")]));
    assert_eq!(query_params_of("a=b=c"), pairs(&[("Query_a", "b")]));
}

#[test]
fn cgi_env_merges_three_sources_in_order() {
    let headers = pairs(&[("Host", "example"), ("Content-Length", "5")]);
    let env = build_cgi_env("POST", "/scripts/echo.sh", "x=1", &headers);
    assert_eq!(
        env,
        pairs(&[
            ("Query_x", "1"),
            ("Host", "example"),
            ("Content-Length", "5"),
            ("Method", "POST"),
            ("Path", "/scripts/echo.sh"),
        ])
    );
}

// ----- static responses -----

#[test]
fn static_png_round_trip() {
    let body = vec![1u8, 2, 3, 4, 5];
    let resp = static_file_response("/img/cat.png", &body);
    let mut expected =
        b"HTTP/1.0 200 OK\r\nContent-Type: image/png\r\nContent-Length: 5\r\nConnection: close\r\n\r\n"
            .to_vec();
    expected.extend_from_slice(&body);
    assert_eq!(resp, expected);
    // the body bytes at the tail are identical to the file bytes
    assert_eq!(&resp[resp.len() - body.len()..], &body[..]);
}

#[test]
fn content_type_table() {
    assert_eq!(get_content_type("/a/x.html"), "text/html; charset=utf-8");
    assert_eq!(get_content_type("x.css"), "text/css; charset=utf-8");
    assert_eq!(get_content_type("x.js"), "text/javascript; charset=utf-8");
    assert_eq!(get_content_type("x.jpg"), "image/jpeg");
    assert_eq!(get_content_type("x.jpeg"), "image/jpeg");
    assert_eq!(get_content_type("x.png"), "image/png");
    assert_eq!(get_content_type("x.zip"), "application/zip");
    assert_eq!(get_content_type("x.txt"), "text/plain; charset=utf-8");
    assert_eq!(get_content_type("x.sh"), "text/plain; charset=utf-8");
    assert_eq!(get_content_type("x.HTML"), "application/octet-stream");
    assert_eq!(get_content_type("x"), "application/octet-stream");
}

#[test]
fn directory_get_sends_content_type_and_no_body() {
    let resp = dir_listing_response();
    assert_eq!(
        resp,
        b"HTTP/1.0 200 OK\r\nContent-type: text/plain; charset=utf-8\r\nConnection: close\r\n\r\n"
            .to_vec()
    );
    let listing = directory_listing(&pairs(&[("a.txt", "")]).iter().map(|p| p.0.clone()).collect());
    assert_eq!(listing, "a.txt\n");
    let names: Vec<String> = vec!["a".to_string(), "b".to_string()];
    assert_eq!(directory_listing(&names), "a\nb\n");
}

// ----- CGI output framing and script outcomes -----

#[test]
fn script_headers_then_body() {
    let framed = frame_cgi_output(b"Content-Type: text/plain\n\nhello");
    assert_eq!(framed.headers, vec![b"Content-Type: text/plain".to_vec()]);
    assert_eq!(framed.body, b"hello".to_vec());
    let (out, code) = script_outcome(ScriptRun::Completed {
        exit_zero: true,
        out: b"Content-Type: text/plain\n\nhello".to_vec(),
        err: Vec::new(),
    });
    assert_eq!(code, 200);
    let resp = script_response(code, &out);
    assert_eq!(
        resp,
        b"HTTP/1.0 200 OK\r\nContent-Type: text/plain\r\nConnection: close\r\n\r\nhello".to_vec()
    );
}

#[test]
fn failed_script_returns_stderr_as_500_body() {
    let (out, code) = script_outcome(ScriptRun::Completed {
        exit_zero: false,
        out: b"ignored".to_vec(),
        err: b"boom".to_vec(),
    });
    assert_eq!(code, 500);
    assert_eq!(out, b"boom".to_vec());
    let resp = script_response(code, &out);
    // body is the error stream and no caller-supplied header is present
    assert_eq!(
        resp,
        b"HTTP/1.0 500 Internal Server Error\r\nConnection: close\r\n\r\nboom".to_vec()
    );
}

#[test]
fn spawn_failure_is_an_empty_404() {
    let (out, code) = script_outcome(ScriptRun::SpawnFailed);
    assert_eq!((out.as_slice(), code), (&b""[..], 404));
}

#[test]
fn framing_edge_cases() {
    // no blank line: everything is headers, the body is empty
    let framed = frame_cgi_output(b"X-One: 1\nX-Two: 2");
    assert_eq!(framed.headers, vec![b"X-One: 1".to_vec(), b"X-Two: 2".to_vec()]);
    assert_eq!(framed.body, b"".to_vec());
    // carriage returns are stripped per line; body lines rejoin with \n
    let framed = frame_cgi_output(b"A: 1\r\n\r\nline1\r\nline2\n");
    assert_eq!(framed.headers, vec![b"A: 1".to_vec()]);
    assert_eq!(framed.body, b"line1\nline2\n".to_vec());
    // empty output: the first line is already blank
    let framed = frame_cgi_output(b"");
    assert_eq!(framed.headers, Vec::<Vec<u8>>::new());
    assert_eq!(framed.body, b"".to_vec());
}

#[test]
fn script_precheck() {
    assert!(!script_allowed(false, 0o755));
    assert!(!script_allowed(true, 0o000));
    assert!(script_allowed(true, 0o444));
    assert!(script_allowed(true, 0o400));
}

// ----- POST handling -----

#[test]
fn post_body_length_comes_from_content_length() {
    let headers = pairs(&[("Content-Length", "5")]);
    assert_eq!(content_length_of(&headers), 5);
    assert_eq!(request_body_length("POST", &headers), 5);
    assert_eq!(request_body_length("GET", &headers), 0);
    let lower = pairs(&[("Content-length", "7")]);
    assert_eq!(request_body_length("POST", &lower), 7);
    let junk = pairs(&[("Content-Length", "five")]);
    assert_eq!(request_body_length("POST", &junk), 0);
    assert_eq!(request_body_length("POST", &pairs(&[])), 0);
}

#[test]
fn post_outside_scripts_prefix_is_404() {
    for path in ["/", "/index.html", "/script/echo.sh", "/scriptsx/a.sh", "/a/scripts/b.sh"] {
        match dispatch_post(path) {
            Action::Respond(v) => assert_eq!(
                v,
                b"HTTP/1.0 404 Not Found\r\nConnection: close\r\n\r\n".to_vec()
            ),
            _ => panic!("POST to {:?} must be refused", path),
        }
    }
    assert!(matches!(dispatch_post("/scripts/echo.sh"), Action::RunScript));
}

// ----- GET dispatch and readability -----

#[test]
fn unreadable_file_is_forbidden() {
    assert!(!is_readable(0o000));
    assert!(!is_readable(0o333));
    assert!(is_readable(0o400));
    assert!(is_readable(0o040));
    assert!(is_readable(0o004));
    let act = dispatch_get("/secret.txt", &FileStat::Found { mode: 0o200, regular: true });
    match act {
        Action::Respond(v) => assert_eq!(v, forbidden_response()),
        _ => panic!("unreadable target must be forbidden"),
    }
}

#[test]
fn get_dispatch_branches() {
    assert!(matches!(
        dispatch_get("/scripts/run.sh", &FileStat::Found { mode: 0o755, regular: true }),
        Action::RunScript
    ));
    assert!(matches!(
        dispatch_get("/index.html", &FileStat::Found { mode: 0o644, regular: true }),
        Action::ServeFile
    ));
    assert!(matches!(
        dispatch_get("/subdir", &FileStat::Found { mode: 0o755, regular: false }),
        Action::ListDirectory
    ));
    match dispatch_get("/x", &FileStat::PermissionDenied) {
        Action::Respond(v) => assert_eq!(v, forbidden_response()),
        _ => panic!("permission error must be forbidden"),
    }
    match dispatch_get("/x", &FileStat::LookupFailed) {
        Action::Respond(v) => assert_eq!(v, empty_response(404)),
        _ => panic!("lookup failure must be 404"),
    }
}

// ----- request line -----

#[test]
fn single_token_request_line_is_malformed() {
    assert!(parse_request_line("GET").is_none());
    assert!(parse_request_line("GET\r\n").is_none());
    assert!(parse_request_line("   GET   ").is_none());
    assert!(parse_request_line("").is_none());
    assert!(parse_request_line(" \r\n").is_none());
}

#[test]
fn request_line_tokens() {
    let (m, t) = parse_request_line("GET /index.html HTTP/1.0\r\n").unwrap();
    assert_eq!((m, t), ("GET", "/index.html"));
    let (m, t) = parse_request_line("POST /scripts/echo.sh HTTP/1.1").unwrap();
    assert_eq!((m, t), ("POST", "/scripts/echo.sh"));
    // a version token is not required
    let (m, t) = parse_request_line("GET /x").unwrap();
    assert_eq!((m, t), ("GET", "/x"));
}

#[test]
fn query_string_split() {
    assert_eq!(split_query_string("/a?b=1"), ("/a", "b=1"));
    assert_eq!(split_query_string("/a"), ("/a", ""));
    assert_eq!(split_query_string("/a?b?c"), ("/a", "b?c"));
    assert_eq!(split_query_string("?x"), ("", "x"));
    assert_eq!(split_query_string("/a?"), ("/a", ""));
}

#[test]
fn method_classification() {
    assert_eq!(method_kind("GET"), MethodKind::Get);
    assert_eq!(method_kind("POST"), MethodKind::Post);
    assert_eq!(method_kind("PUT"), MethodKind::Other);
    assert_eq!(method_kind("get"), MethodKind::Other);
}

// ----- headers -----

#[test]
fn header_line_parsing() {
    match parse_header_line("Host: example.com\r\n") {
        HeaderLine::Pair(k, v) => assert_eq!((k.as_str(), v.as_str()), ("Host", "example.com")),
        _ => panic!("expected a pair"),
    }
    // the value stops at a second colon
    match parse_header_line("A: b:c") {
        HeaderLine::Pair(k, v) => assert_eq!((k.as_str(), v.as_str()), ("A", "b")),
        _ => panic!("expected a pair"),
    }
    assert!(matches!(parse_header_line(""), HeaderLine::End));
    assert!(matches!(parse_header_line("  \r\n"), HeaderLine::End));
    assert!(matches!(parse_header_line("no colon here"), HeaderLine::Skip));
}

#[test]
fn header_lookup_last_write_wins() {
    let headers = pairs(&[("A", "1"), ("B", "2"), ("A", "3")]);
    assert_eq!(header_lookup(&headers, "A").unwrap(), "3");
    assert_eq!(header_lookup(&headers, "B").unwrap(), "2");
    assert!(header_lookup(&headers, "C").is_none());
}

#[test]
fn decimal_parsing() {
    assert_eq!(parse_usize("5"), Some(5));
    assert_eq!(parse_usize("+5"), Some(5));
    assert_eq!(parse_usize("0"), Some(0));
    assert_eq!(parse_usize(""), None);
    assert_eq!(parse_usize("+"), None);
    assert_eq!(parse_usize("-5"), None);
    assert_eq!(parse_usize("5x"), None);
    assert_eq!(parse_usize(" 5"), None);
    assert_eq!(parse_usize("18446744073709551615"), Some(usize::MAX));
    assert_eq!(parse_usize("18446744073709551616"), None);
    assert_eq!(parse_usize("99999999999999999999999"), None);
}

// ----- response writer -----

#[test]
fn response_shape_and_reasons() {
    assert_eq!(get_status(200), "OK");
    assert_eq!(get_status(400), "Bad Request");
    assert_eq!(get_status(403), "Forbidden");
    assert_eq!(get_status(404), "Not Found");
    assert_eq!(get_status(405), "Method Not Allowed");
    assert_eq!(get_status(500), "Internal Server Error");
    assert_eq!(get_status(418), "");
    let headers = vec![b"X-A: 1".to_vec(), b"X-B: 2".to_vec()];
    let resp = render_response(200, b"hi", &headers);
    assert_eq!(
        resp,
        b"HTTP/1.0 200 OK\r\nX-A: 1\r\nX-B: 2\r\nConnection: close\r\n\r\nhi".to_vec()
    );
    assert_eq!(
        empty_response(405),
        b"HTTP/1.0 405 Method Not Allowed\r\nConnection: close\r\n\r\n".to_vec()
    );
    assert_eq!(
        empty_response(400),
        b"HTTP/1.0 400 Bad Request\r\nConnection: close\r\n\r\n".to_vec()
    );
}

#[test]
fn status_500_suppresses_caller_headers() {
    let headers = vec![b"Evil: injected".to_vec()];
    let resp = render_response(500, b"x", &headers);
    assert_eq!(
        resp,
        b"HTTP/1.0 500 Internal Server Error\r\nConnection: close\r\n\r\nx".to_vec()
    );
}

#[test]
fn trimming() {
    assert_eq!(trim("  a b \r\n"), "a b");
    assert_eq!(trim(""), "");
    assert_eq!(trim("   "), "");
    assert_eq!(trim("x"), "x");
}
