//! Per-connection dispatch: the decision tree that turns a parsed
//! request, the jail outcome and the target's filesystem facts into
//! either a ready response or the action to perform, and the builders
//! for each response the server sends.

use vstd::prelude::*;
use vstd::string::StringExecFns;
use crate::classify::{get_content_type, spec_content_type};
use crate::jail::{is_readable, spec_readable, JailOutcome};
use crate::response::{dec_digits, push_decimal, render_response, spec_response};
use crate::text::{
    ascii_bytes, append_ascii, lemma_ascii_bytes_concat, spec_ends_with, spec_starts_with, str_eq,
    str_ends_with, str_starts_with,
};

verus! {

/// What a stat of the request target reported: found (with its permission
/// mode and whether it is a regular file), refused with a permission
/// error, or failed in any other way.
#[derive(Clone, Copy, PartialEq, Eq, Structural, Debug)]
pub enum FileStat {
    Found { mode: u32, regular: bool },
    PermissionDenied,
    LookupFailed,
}

/// The request method, as far as dispatch distinguishes it.
#[derive(Clone, Copy, PartialEq, Eq, Structural, Debug)]
pub enum MethodKind {
    Get,
    Post,
    Other,
}

/// What the connection handler must do next: run the target as a CGI
/// script, serve the target file's bytes, answer for a directory, or
/// write an already-serialized response.
pub enum Action {
    RunScript,
    ServeFile,
    ListDirectory,
    Respond(Vec<u8>),
}

pub open spec fn spec_forbidden_body() -> Seq<u8> {
    ascii_bytes("<html>403 Forbidden</html>"@)
}

pub open spec fn spec_not_found_body() -> Seq<u8> {
    ascii_bytes("<html>404 Not Found</html>"@)
}

pub open spec fn spec_server_error_body() -> Seq<u8> {
    ascii_bytes("<html>500 Internal Server Error</html>"@)
}

fn literal_body_response(code: u16, body: &str) -> (r: Vec<u8>)
    requires
        body.is_ascii(),
    ensures
        r@ == spec_response(code, Seq::empty(), ascii_bytes(body@)),
{
    let mut b: Vec<u8> = Vec::new();
    append_ascii(&mut b, body);
    let hs: Vec<Vec<u8>> = Vec::new();
    let r = render_response(code, b.as_slice(), &hs);
    proof {
        assert(hs.deep_view() =~~= Seq::<Seq<u8>>::empty());
        assert(b@ =~= ascii_bytes(body@));
    }
    r
}

/// A response with the given status and no extra headers or body.
pub fn empty_response(code: u16) -> (r: Vec<u8>)
    ensures
        r@ == spec_response(code, Seq::empty(), Seq::empty()),
{
    let b: Vec<u8> = Vec::new();
    let hs: Vec<Vec<u8>> = Vec::new();
    let r = render_response(code, b.as_slice(), &hs);
    proof {
        assert(hs.deep_view() =~~= Seq::<Seq<u8>>::empty());
        assert(b@ =~= Seq::<u8>::empty());
    }
    r
}

/// The 403 response sent for a forbidden target.
pub fn forbidden_response() -> (r: Vec<u8>)
    ensures
        r@ == spec_response(403, Seq::empty(), spec_forbidden_body()),
{
    proof {
        reveal_strlit("<html>403 Forbidden</html>");
    }
    literal_body_response(403, "<html>403 Forbidden</html>")
}

/// The response ending a request that the jail did not authorize:
/// 403 for an escape, 404 for a target that would not canonicalize,
/// 500 for a root that would not canonicalize. An authorized target
/// needs no response here.
pub fn jail_response(outcome: JailOutcome) -> (r: Option<Vec<u8>>)
    ensures
        match outcome {
            JailOutcome::Authorized => r is None,
            JailOutcome::Escaped => (r matches Some(v) && v@ == spec_response(
                403,
                Seq::empty(),
                spec_forbidden_body(),
            )),
            JailOutcome::NotFound => (r matches Some(v) && v@ == spec_response(
                404,
                Seq::empty(),
                spec_not_found_body(),
            )),
            JailOutcome::Misconfigured => (r matches Some(v) && v@ == spec_response(
                500,
                Seq::empty(),
                spec_server_error_body(),
            )),
        },
{
    match outcome {
        JailOutcome::Authorized => None,
        JailOutcome::Escaped => Some(forbidden_response()),
        JailOutcome::NotFound => {
            proof {
                reveal_strlit("<html>404 Not Found</html>");
            }
            Some(literal_body_response(404, "<html>404 Not Found</html>"))
        },
        JailOutcome::Misconfigured => {
            proof {
                reveal_strlit("<html>500 Internal Server Error</html>");
            }
            Some(literal_body_response(500, "<html>500 Internal Server Error</html>"))
        },
    }
}

/// Classifies the request method for dispatch.
pub fn method_kind(method: &str) -> (r: MethodKind)
    ensures
        (r == MethodKind::Get) <==> method@ == "GET"@,
        (r == MethodKind::Post) <==> method@ == "POST"@,
{
    proof {
        reveal_strlit("GET");
        reveal_strlit("POST");
        assert("GET"@.len() == 3);
        assert("POST"@.len() == 4);
    }
    if str_eq(method, "GET") {
        MethodKind::Get
    } else if str_eq(method, "POST") {
        MethodKind::Post
    } else {
        MethodKind::Other
    }
}

/// Dispatches a GET after the jail authorized the target. An unreadable
/// target or a permission failure is forbidden; a lookup failure is not
/// found; a readable regular file runs as a script when its path ends in
/// `.sh` and is served as a static file otherwise; anything else is a
/// directory.
pub fn dispatch_get(path: &str, stat: &FileStat) -> (r: Action)
    ensures
        ({
            match *stat {
                FileStat::Found { mode, regular } => {
                    if !spec_readable(mode) {
                        r matches Action::Respond(v) && v@ == spec_response(
                            403,
                            Seq::empty(),
                            spec_forbidden_body(),
                        )
                    } else if regular && spec_ends_with(path@, ".sh"@) {
                        r is RunScript
                    } else if regular {
                        r is ServeFile
                    } else {
                        r is ListDirectory
                    }
                },
                FileStat::PermissionDenied => r matches Action::Respond(v) && v@ == spec_response(
                    403,
                    Seq::empty(),
                    spec_forbidden_body(),
                ),
                FileStat::LookupFailed => r matches Action::Respond(v) && v@ == spec_response(
                    404,
                    Seq::empty(),
                    Seq::empty(),
                ),
            }
        }),
{
    match *stat {
        FileStat::Found { mode, regular } => {
            if !is_readable(mode) {
                Action::Respond(forbidden_response())
            } else if regular {
                if str_ends_with(path, ".sh") {
                    Action::RunScript
                } else {
                    Action::ServeFile
                }
            } else {
                Action::ListDirectory
            }
        },
        FileStat::PermissionDenied => Action::Respond(forbidden_response()),
        FileStat::LookupFailed => Action::Respond(empty_response(404)),
    }
}

/// Dispatches a POST: only a path under the reserved `/scripts/` prefix
/// runs as a script; any other path is answered 404 with no body read.
pub fn dispatch_post(path: &str) -> (r: Action)
    ensures
        spec_starts_with(path@, "/scripts/"@) ==> r is RunScript,
        !spec_starts_with(path@, "/scripts/"@) ==> (r matches Action::Respond(v) && v@
            == spec_response(404, Seq::empty(), Seq::empty())),
{
    if str_starts_with(path, "/scripts/") {
        Action::RunScript
    } else {
        Action::Respond(empty_response(404))
    }
}

/// The response serving a static file: status 200, a `Content-Type`
/// header from the suffix table, a `Content-Length` header holding the
/// byte count, and the file's bytes unchanged as the body.
pub open spec fn spec_static_response(p: Seq<char>, body: Seq<u8>) -> Seq<u8> {
    spec_response(
        200,
        seq![
            ascii_bytes("Content-Type: "@ + spec_content_type(p)),
            ascii_bytes("Content-Length: "@ + dec_digits(body.len() as int)),
        ],
        body,
    )
}

/// Serializes the response for a readable regular file.
pub fn static_file_response(path: &str, contents: &[u8]) -> (r: Vec<u8>)
    ensures
        r@ == spec_static_response(path@, contents@),
{
    let ct = get_content_type(path);
    let mut h1: Vec<u8> = Vec::new();
    proof {
        reveal_strlit("Content-Type: ");
    }
    append_ascii(&mut h1, "Content-Type: ");
    append_ascii(&mut h1, ct);
    proof {
        lemma_ascii_bytes_concat("Content-Type: "@, spec_content_type(path@));
        assert(h1@ =~= ascii_bytes("Content-Type: "@ + spec_content_type(path@)));
    }
    let mut h2: Vec<u8> = Vec::new();
    proof {
        reveal_strlit("Content-Length: ");
    }
    append_ascii(&mut h2, "Content-Length: ");
    push_decimal(&mut h2, contents.len() as u64);
    proof {
        lemma_ascii_bytes_concat("Content-Length: "@, dec_digits(contents@.len() as int));
        assert(h2@ =~= ascii_bytes("Content-Length: "@ + dec_digits(contents@.len() as int)));
    }
    let ghost h1v = h1@;
    let ghost h2v = h2@;
    let mut hs: Vec<Vec<u8>> = Vec::new();
    hs.push(h1);
    hs.push(h2);
    let r = render_response(200, contents, &hs);
    proof {
        assert(hs.deep_view() =~~= seq![h1v, h2v]);
    }
    r
}

/// Round trip for a static `.png` file of any size: the response has
/// status 200, `Content-Type: image/png`, a `Content-Length` holding the
/// file's byte count, and a tail byte-identical to the file's contents.
pub proof fn lemma_static_png_round_trip(p: Seq<char>, body: Seq<u8>)
    requires
        spec_ends_with(p, ".png"@),
    ensures
        spec_static_response(p, body) == spec_response(
            200,
            seq![
                ascii_bytes("Content-Type: "@ + "image/png"@),
                ascii_bytes("Content-Length: "@ + dec_digits(body.len() as int)),
            ],
            body,
        ),
        spec_static_response(p, body).len() >= body.len(),
        spec_static_response(p, body).subrange(
            spec_static_response(p, body).len() - body.len(),
            spec_static_response(p, body).len() as int,
        ) == body,
{
    crate::classify::lemma_png_content_type(p);
    let r = spec_static_response(p, body);
    assert(r.subrange(r.len() - body.len(), r.len() as int) =~= body);
}

/// The response for a readable directory: status 200 and the observed
/// content-type header, with no body and no content length.
pub fn dir_listing_response() -> (r: Vec<u8>)
    ensures
        r@ == spec_response(
            200,
            seq![ascii_bytes("Content-type: text/plain; charset=utf-8"@)],
            Seq::empty(),
        ),
{
    let mut h: Vec<u8> = Vec::new();
    proof {
        reveal_strlit("Content-type: text/plain; charset=utf-8");
    }
    append_ascii(&mut h, "Content-type: text/plain; charset=utf-8");
    let ghost hv = h@;
    let mut hs: Vec<Vec<u8>> = Vec::new();
    hs.push(h);
    let b: Vec<u8> = Vec::new();
    let r = render_response(200, b.as_slice(), &hs);
    proof {
        assert(hs.deep_view() =~~= seq![hv]);
        assert(hv =~= ascii_bytes("Content-type: text/plain; charset=utf-8"@));
        assert(b@ =~= Seq::<u8>::empty());
    }
    r
}

/// The plain-text listing of a directory, one entry name per line.
pub open spec fn spec_dir_listing(es: Seq<Seq<char>>, i: int) -> Seq<char>
    decreases es.len() - i,
{
    if i < 0 || i >= es.len() {
        Seq::empty()
    } else {
        es[i] + "\n"@ + spec_dir_listing(es, i + 1)
    }
}

/// Formats a directory's entry names, each followed by a newline. The
/// directory response itself carries no body; the listing is computed
/// and then dropped, preserving the observed wire behavior.
pub fn directory_listing(entries: &Vec<String>) -> (r: String)
    ensures
        r@ == spec_dir_listing(entries.deep_view(), 0),
{
    let ghost ev = entries.deep_view();
    let mut out = String::new();
    let mut i: usize = 0;
    proof {
        assert(out@ + spec_dir_listing(ev, 0) =~= spec_dir_listing(ev, 0));
    }
    while i < entries.len()
        invariant
            0 <= i <= entries@.len(),
            ev == entries.deep_view(),
            ev.len() == entries@.len(),
            out@ + spec_dir_listing(ev, i as int) == spec_dir_listing(ev, 0),
        decreases entries@.len() - i,
    {
        let ghost pre = out@;
        out.append(entries[i].as_str());
        out.append("\n");
        proof {
            assert(ev[i as int] == entries@[i as int]@);
            assert(out@ + spec_dir_listing(ev, i + 1) =~= pre + spec_dir_listing(ev, i as int));
        }
        i += 1;
    }
    proof {
        assert(spec_dir_listing(ev, i as int) =~= Seq::<char>::empty());
        assert(out@ =~= out@ + spec_dir_listing(ev, i as int));
    }
    out
}

} // verus!
