//! CGI-style script execution support: the environment built from the
//! request, the request-body length rule, the interpretation of a
//! finished subprocess, and the framing of script output into response
//! header lines and a body.

use vstd::prelude::*;
use vstd::string::StringExecFns;
use crate::headers::{content_length_of, spec_content_length};
use crate::jail::{is_readable, spec_readable};
use crate::response::{render_response, spec_response};
use crate::text::{find_char_from, lemma_find_char_from_at, lemma_find_char_from_props,
    scan_char_to, str_eq};

verus! {

// ---------------------------------------------------------------------
// Byte searching
// ---------------------------------------------------------------------
/// Position of the first occurrence of `b` in `s` at or after `i`;
/// `s.len()` when there is none.
pub open spec fn find_byte_from(s: Seq<u8>, i: int, b: u8) -> int
    decreases s.len() - i,
{
    if i < 0 || i >= s.len() {
        s.len() as int
    } else if s[i] == b {
        i
    } else {
        find_byte_from(s, i + 1, b)
    }
}

pub proof fn lemma_find_byte_from_props(s: Seq<u8>, i: int, b: u8)
    requires
        0 <= i <= s.len(),
    ensures
        ({
            let e = find_byte_from(s, i, b);
            &&& i <= e <= s.len()
            &&& forall|j: int| i <= j < e ==> s[j] != b
            &&& e < s.len() ==> s[e] == b
        }),
    decreases s.len() - i,
{
    if i < s.len() && s[i] != b {
        lemma_find_byte_from_props(s, i + 1, b);
    }
}

pub proof fn lemma_find_byte_from_at(s: Seq<u8>, i: int, b: u8, r: int)
    requires
        0 <= i <= r <= s.len(),
        forall|j: int| i <= j < r ==> s[j] != b,
        r < s.len() ==> s[r] == b,
    ensures
        find_byte_from(s, i, b) == r,
    decreases r - i,
{
    if i < r {
        lemma_find_byte_from_at(s, i + 1, b, r);
    }
}

/// Scans a byte slice for `b` at or after `from`.
pub fn scan_byte(s: &[u8], from: usize, b: u8) -> (r: usize)
    requires
        from <= s@.len(),
    ensures
        from <= r <= s@.len(),
        r as int == find_byte_from(s@, from as int, b),
{
    let n = s.len();
    let mut i: usize = from;
    while i < n
        invariant
            from <= i <= n,
            n == s@.len(),
            forall|j: int| from <= j < i ==> s@[j] != b,
        decreases n - i,
    {
        if s[i] == b {
            proof {
                lemma_find_byte_from_at(s@, from as int, b, i as int);
            }
            return i;
        }
        i += 1;
    }
    proof {
        lemma_find_byte_from_at(s@, from as int, b, n as int);
    }
    i
}

// ---------------------------------------------------------------------
// Output framing
// ---------------------------------------------------------------------
/// A line with one trailing carriage return removed.
pub open spec fn strip_cr(l: Seq<u8>) -> Seq<u8> {
    if l.len() > 0 && l.last() == 13 {
        l.drop_last()
    } else {
        l
    }
}

/// The lines of script output from position `i` on: split at every
/// newline, each line stripped of one trailing carriage return.
pub open spec fn cgi_lines_from(s: Seq<u8>, i: int) -> Seq<Seq<u8>>
    decreases s.len() - i,
        when 0 <= i <= s.len()
{
    proof {
        lemma_find_byte_from_props(s, i, 10);
    }
    let e = find_byte_from(s, i, 10);
    if e >= s.len() {
        seq![strip_cr(s.subrange(i, s.len() as int))]
    } else {
        seq![strip_cr(s.subrange(i, e))] + cgi_lines_from(s, e + 1)
    }
}

/// The lines of script output.
pub open spec fn cgi_lines(s: Seq<u8>) -> Seq<Seq<u8>> {
    cgi_lines_from(s, 0)
}

/// Index of the first empty line at or after `i`; `ls.len()` when none.
pub open spec fn first_empty_from(ls: Seq<Seq<u8>>, i: int) -> int
    decreases ls.len() - i,
{
    if i < 0 || i >= ls.len() {
        ls.len() as int
    } else if ls[i].len() == 0 {
        i
    } else {
        first_empty_from(ls, i + 1)
    }
}

pub proof fn lemma_first_empty_from_at(ls: Seq<Seq<u8>>, i: int, r: int)
    requires
        0 <= i <= r <= ls.len(),
        forall|j: int| i <= j < r ==> ls[j].len() > 0,
        r < ls.len() ==> ls[r].len() == 0,
    ensures
        first_empty_from(ls, i) == r,
    decreases r - i,
{
    if i < r {
        lemma_first_empty_from_at(ls, i + 1, r);
    }
}

/// The lines from `i` on joined with a newline between them.
pub open spec fn join_from(ls: Seq<Seq<u8>>, i: int) -> Seq<u8>
    decreases ls.len() - i,
{
    if i < 0 || i >= ls.len() {
        Seq::empty()
    } else if i == ls.len() - 1 {
        ls[i]
    } else {
        ls[i] + seq![10u8] + join_from(ls, i + 1)
    }
}

/// The response header lines a script's output carries: the lines before
/// the first blank line.
pub open spec fn cgi_header_lines(s: Seq<u8>) -> Seq<Seq<u8>> {
    cgi_lines(s).take(first_empty_from(cgi_lines(s), 0))
}

/// The response body a script's output carries: the lines after the
/// first blank line, joined with newlines; empty when the output has no
/// blank line.
pub open spec fn cgi_body(s: Seq<u8>) -> Seq<u8> {
    let ls = cgi_lines(s);
    let k = first_empty_from(ls, 0);
    if k >= ls.len() {
        Seq::empty()
    } else {
        join_from(ls, k + 1)
    }
}

/// Script output split into response header lines and a body.
pub struct CgiOutput {
    pub headers: Vec<Vec<u8>>,
    pub body: Vec<u8>,
}

fn first_empty_line(lines: &Vec<Vec<u8>>) -> (r: usize)
    ensures
        r as int == first_empty_from(lines.deep_view(), 0),
        r <= lines@.len(),
{
    let ghost dv = lines.deep_view();
    let n = lines.len();
    let mut i: usize = 0;
    while i < n
        invariant
            0 <= i <= n,
            n == lines@.len(),
            dv == lines.deep_view(),
            dv.len() == n,
            forall|j: int| 0 <= j < i ==> #[trigger] dv[j].len() > 0,
        decreases n - i,
    {
        proof {
            assert(dv[i as int] =~= lines@[i as int]@);
        }
        if lines[i].len() == 0 {
            proof {
                lemma_first_empty_from_at(dv, 0, i as int);
            }
            return i;
        }
        i += 1;
    }
    proof {
        lemma_first_empty_from_at(dv, 0, n as int);
    }
    i
}

/// Splits script output into CGI header lines and a body: the lines up
/// to the first blank line are headers; everything after it is the body.
/// Output without a blank line is headers only, with an empty body.
pub fn frame_cgi_output(output: &[u8]) -> (r: CgiOutput)
    ensures
        r.headers.deep_view() == cgi_header_lines(output@),
        r.body@ == cgi_body(output@),
{
    let n = output.len();
    let mut lines: Vec<Vec<u8>> = Vec::new();
    let mut start: usize = 0;
    let mut more: bool = true;
    proof {
        assert(lines.deep_view() =~~= Seq::<Seq<u8>>::empty());
        assert(cgi_lines(output@) =~~= lines.deep_view() + cgi_lines_from(output@, 0));
    }
    while more
        invariant
            n == output@.len(),
            0 <= start <= n,
            more ==> cgi_lines(output@) == lines.deep_view() + cgi_lines_from(
                output@,
                start as int,
            ),
            !more ==> lines.deep_view() == cgi_lines(output@),
        decreases n - start + (if more {
            1int
        } else {
            0int
        }),
    {
        let ghost pre_dv = lines.deep_view();
        let e = scan_byte(output, start, 10);
        let mut line: Vec<u8> = Vec::new();
        line.extend_from_slice(&output[start..e]);
        if line.len() > 0 && line[line.len() - 1] == 13 {
            line.pop();
        }
        proof {
            assert(line@ == strip_cr(output@.subrange(start as int, e as int)));
        }
        lines.push(line);
        proof {
            assert(line.deep_view() =~= line@);
            assert(lines.deep_view() =~~= pre_dv + seq![line@]);
        }
        if e < n {
            proof {
                assert(cgi_lines_from(output@, start as int) == seq![
                    strip_cr(output@.subrange(start as int, e as int)),
                ] + cgi_lines_from(output@, e + 1));
                assert(lines.deep_view() + cgi_lines_from(output@, e + 1) =~~= pre_dv
                    + cgi_lines_from(output@, start as int));
            }
            start = e + 1;
        } else {
            proof {
                assert(cgi_lines_from(output@, start as int) == seq![
                    strip_cr(output@.subrange(start as int, n as int)),
                ]);
                assert(lines.deep_view() =~~= pre_dv + cgi_lines_from(output@, start as int));
            }
            more = false;
        }
    }
    let ghost dv = lines.deep_view();
    let m = lines.len();
    let j = first_empty_line(&lines);
    let mut body: Vec<u8> = Vec::new();
    if j < m {
        let start2 = j + 1;
        let mut k: usize = start2;
        while k < m
            invariant
                start2 <= k <= m,
                m == lines@.len(),
                dv == lines.deep_view(),
                dv.len() == m,
                k == start2 ==> body@ == Seq::<u8>::empty(),
                k > start2 ==> join_from(dv, start2 as int) == body@ + (if k < m {
                    seq![10u8] + join_from(dv, k as int)
                } else {
                    Seq::<u8>::empty()
                }),
            decreases m - k,
        {
            let ghost pre_body = body@;
            if k > start2 {
                body.push(10u8);
            }
            body.extend_from_slice(lines[k].as_slice());
            proof {
                assert(dv[k as int] =~= lines@[k as int]@);
                if k == start2 {
                    assert(body@ =~= dv[k as int]);
                    if k + 1 < m {
                        assert(join_from(dv, start2 as int) =~= body@ + (seq![10u8] + join_from(
                            dv,
                            k + 1,
                        )));
                    } else {
                        assert(join_from(dv, start2 as int) =~= body@);
                        assert(join_from(dv, start2 as int) =~= body@ + Seq::<u8>::empty());
                    }
                } else {
                    assert(body@ =~= pre_body + seq![10u8] + dv[k as int]);
                    if k + 1 < m {
                        assert(join_from(dv, k as int) == dv[k as int] + seq![10u8] + join_from(
                            dv,
                            k + 1,
                        ));
                        assert(join_from(dv, start2 as int) =~= body@ + (seq![10u8] + join_from(
                            dv,
                            k + 1,
                        )));
                    } else {
                        assert(join_from(dv, k as int) == dv[k as int]);
                        assert(join_from(dv, start2 as int) =~= body@);
                        assert(join_from(dv, start2 as int) =~= body@ + Seq::<u8>::empty());
                    }
                }
            }
            k += 1;
        }
        proof {
            if start2 == m {
                assert(join_from(dv, start2 as int) =~= Seq::<u8>::empty());
                assert(body@ =~= join_from(dv, start2 as int));
            } else {
                assert(body@ + Seq::<u8>::empty() =~= body@);
                assert(body@ =~= join_from(dv, start2 as int));
            }
            assert(body@ == cgi_body(output@));
        }
    } else {
        proof {
            assert(body@ =~= Seq::<u8>::empty());
            assert(body@ == cgi_body(output@));
        }
    }
    lines.truncate(j);
    proof {
        assert(lines.deep_view() =~~= dv.take(j as int));
        assert(lines.deep_view() == cgi_header_lines(output@));
    }
    CgiOutput { headers: lines, body }
}

// ---------------------------------------------------------------------
// Script outcome and response
// ---------------------------------------------------------------------
/// How a spawned script finished: it could not be spawned at all, or it
/// ran to completion with an exit status and captured output streams.
pub enum ScriptRun {
    SpawnFailed,
    Completed { exit_zero: bool, out: Vec<u8>, err: Vec<u8> },
}

/// Turns a finished script run into response bytes and a status code:
/// standard output with 200 on a zero exit, standard error with 500 on a
/// non-zero exit, and an empty 404 when the process never spawned.
pub fn script_outcome(run: ScriptRun) -> (r: (Vec<u8>, u16))
    ensures
        match run {
            ScriptRun::SpawnFailed => r.0@ == Seq::<u8>::empty() && r.1 == 404,
            ScriptRun::Completed { exit_zero, out, err } => {
                if exit_zero {
                    r.0 == out && r.1 == 200
                } else {
                    r.0 == err && r.1 == 500
                }
            },
        },
{
    match run {
        ScriptRun::SpawnFailed => (Vec::new(), 404),
        ScriptRun::Completed { exit_zero, out, err } => {
            if exit_zero {
                (out, 200)
            } else {
                (err, 500)
            }
        },
    }
}

/// A script may run only when its file exists and its permission bits
/// grant read access; otherwise the request ends as an empty 404.
pub fn script_allowed(script_exists: bool, mode: u32) -> (r: bool)
    ensures
        r == (script_exists && spec_readable(mode)),
{
    script_exists && is_readable(mode)
}

/// The response for a finished script: for status 500 the output is the
/// body unchanged (a failed script's error stream is never parsed for
/// headers, and a 500 response carries no caller-supplied headers);
/// otherwise the output is framed as CGI header lines and a body.
pub open spec fn spec_script_response(status: u16, out: Seq<u8>) -> Seq<u8> {
    if status == 500 {
        spec_response(500, Seq::empty(), out)
    } else {
        spec_response(status, cgi_header_lines(out), cgi_body(out))
    }
}

/// Serializes the response for a script run's output and status code.
pub fn script_response(status_code: u16, output: &[u8]) -> (r: Vec<u8>)
    ensures
        r@ == spec_script_response(status_code, output@),
{
    if status_code == 500 {
        let empty: Vec<Vec<u8>> = Vec::new();
        let r = render_response(500, output, &empty);
        proof {
            assert(empty.deep_view() =~~= Seq::<Seq<u8>>::empty());
        }
        r
    } else {
        let framed = frame_cgi_output(output);
        render_response(status_code, framed.body.as_slice(), &framed.headers)
    }
}

// ---------------------------------------------------------------------
// CGI environment
// ---------------------------------------------------------------------
/// The environment entry a query segment contributes: for `key=value`
/// (value read up to a second `=`), the variable `Query_<key>`; segments
/// without `=` contribute nothing.
pub open spec fn maybe_pair(seg: Seq<char>) -> Seq<(Seq<char>, Seq<char>)> {
    if seg.len() == 0 {
        seq![]
    } else {
        let i = find_char_from(seg, 0, '=');
        if i >= seg.len() {
            seq![]
        } else {
            let j = find_char_from(seg, i + 1, '=');
            seq![("Query_"@ + seg.subrange(0, i), seg.subrange(i + 1, j))]
        }
    }
}

/// The environment entries of the query string from position `i` on:
/// `&`-separated segments, empty segments dropped.
pub open spec fn query_env_from(q: Seq<char>, i: int) -> Seq<(Seq<char>, Seq<char>)>
    decreases q.len() - i,
        when 0 <= i <= q.len()
{
    if i >= q.len() {
        seq![]
    } else {
        proof {
            lemma_find_char_from_props(q, i, '&');
        }
        let e = find_char_from(q, i, '&');
        if e >= q.len() {
            maybe_pair(q.subrange(i, q.len() as int))
        } else {
            maybe_pair(q.subrange(i, e)) + query_env_from(q, e + 1)
        }
    }
}

/// The environment entries derived from a whole query string.
pub open spec fn spec_query_env(q: Seq<char>) -> Seq<(Seq<char>, Seq<char>)> {
    query_env_from(q, 0)
}

/// The full CGI environment: the query-derived entries, then every
/// request header verbatim, then the fixed `Method` and `Path` entries.
/// On name collisions the later entry wins when the mapping is applied.
pub open spec fn spec_cgi_env(
    m: Seq<char>,
    p: Seq<char>,
    q: Seq<char>,
    hs: Seq<(Seq<char>, Seq<char>)>,
) -> Seq<(Seq<char>, Seq<char>)> {
    spec_query_env(q) + hs + seq![("Method"@, m), ("Path"@, p)]
}

/// Builds the `Query_<key>` environment entries of a raw query string.
pub fn query_params_of(params: &str) -> (r: Vec<(String, String)>)
    ensures
        r.deep_view() == spec_query_env(params@),
{
    let n = params.unicode_len();
    let mut env: Vec<(String, String)> = Vec::new();
    let mut i: usize = 0;
    proof {
        assert(env.deep_view() =~~= Seq::<(Seq<char>, Seq<char>)>::empty());
    }
    while i < n
        invariant
            0 <= i <= n,
            n == params@.len(),
            spec_query_env(params@) == env.deep_view() + query_env_from(params@, i as int),
        decreases n - i,
    {
        let ghost pre_dv = env.deep_view();
        let e = scan_char_to(params, i, n, '&');
        proof {
            lemma_find_char_from_at(params@, i as int, '&', e as int);
        }
        let ghost seg = params@.subrange(i as int, e as int);
        if e > i {
            let k = scan_char_to(params, i, e, '=');
            if k < e {
                let k2 = scan_char_to(params, k + 1, e, '=');
                let key = params.substring_char(i, k);
                let val = params.substring_char(k + 1, k2);
                let mut name = ("Query_").to_owned();
                name.append(key);
                proof {
                    lemma_find_char_from_at(seg, 0, '=', k - i);
                    lemma_find_char_from_at(seg, k - i + 1, '=', k2 - i);
                    assert(seg.subrange(0, k - i) =~= params@.subrange(i as int, k as int));
                    assert(seg.subrange(k - i + 1, k2 - i) =~= params@.subrange(
                        k + 1,
                        k2 as int,
                    ));
                }
                env.push((name, val.to_owned()));
                proof {
                    assert(env.deep_view() =~~= pre_dv + maybe_pair(seg));
                }
            } else {
                proof {
                    lemma_find_char_from_at(seg, 0, '=', e - i);
                    assert(maybe_pair(seg) =~~= Seq::<(Seq<char>, Seq<char>)>::empty());
                    assert(env.deep_view() =~~= pre_dv + maybe_pair(seg));
                }
            }
        } else {
            proof {
                assert(seg.len() == 0);
                assert(maybe_pair(seg) =~~= Seq::<(Seq<char>, Seq<char>)>::empty());
                assert(env.deep_view() =~~= pre_dv + maybe_pair(seg));
            }
        }
        if e < n {
            proof {
                assert(query_env_from(params@, i as int) == maybe_pair(seg) + query_env_from(
                    params@,
                    e + 1,
                ));
                assert(env.deep_view() + query_env_from(params@, e + 1) =~~= pre_dv
                    + query_env_from(params@, i as int));
            }
            i = e + 1;
        } else {
            proof {
                assert(query_env_from(params@, i as int) == maybe_pair(seg));
                assert(query_env_from(params@, n as int) =~~= Seq::<(Seq<char>, Seq<char>)>::empty());
                assert(env.deep_view() + query_env_from(params@, n as int) =~~= pre_dv
                    + query_env_from(params@, i as int));
            }
            i = n;
        }
    }
    proof {
        assert(query_env_from(params@, n as int) =~~= Seq::<(Seq<char>, Seq<char>)>::empty());
        assert(env.deep_view() =~~= env.deep_view() + query_env_from(params@, n as int));
    }
    env
}

/// Builds the full CGI environment for a script invocation.
pub fn build_cgi_env(
    method: &str,
    path: &str,
    params: &str,
    headers: &Vec<(String, String)>,
) -> (r: Vec<(String, String)>)
    ensures
        r.deep_view() == spec_cgi_env(method@, path@, params@, headers.deep_view()),
{
    let ghost hdv = headers.deep_view();
    let mut env = query_params_of(params);
    let ghost qdv = env.deep_view();
    let mut i: usize = 0;
    proof {
        assert(env.deep_view() =~~= qdv + hdv.take(0));
    }
    while i < headers.len()
        invariant
            0 <= i <= headers@.len(),
            hdv == headers.deep_view(),
            hdv.len() == headers@.len(),
            qdv == spec_query_env(params@),
            env.deep_view() == qdv + hdv.take(i as int),
        decreases headers@.len() - i,
    {
        let k = headers[i].0.clone();
        let v = headers[i].1.clone();
        let ghost pr = (k@, v@);
        let ghost pre = env.deep_view();
        env.push((k, v));
        proof {
            assert(hdv[i as int] == (headers@[i as int].0@, headers@[i as int].1@));
            assert(pr == hdv[i as int]);
            assert(env.deep_view() =~~= pre.push(pr));
            assert(hdv.take(i + 1) =~~= hdv.take(i as int).push(hdv[i as int]));
            assert(env.deep_view() =~~= qdv + hdv.take(i + 1));
        }
        i += 1;
    }
    env.push((("Method").to_owned(), method.to_owned()));
    env.push((("Path").to_owned(), path.to_owned()));
    proof {
        assert(hdv.take(headers@.len() as int) =~= hdv);
        assert(env.deep_view() =~~= spec_cgi_env(method@, path@, params@, hdv));
    }
    env
}

/// The number of request-body bytes to read: the declared content length
/// for a POST, and none for any other method.
pub fn request_body_length(method: &str, headers: &Vec<(String, String)>) -> (r: usize)
    ensures
        r as int == if method@ == "POST"@ {
            spec_content_length(headers.deep_view())
        } else {
            0
        },
{
    if str_eq(method, "POST") {
        content_length_of(headers)
    } else {
        0
    }
}

// ---------------------------------------------------------------------
// Laws about the environment
// ---------------------------------------------------------------------
/// Every environment entry derived from a query string carries the
/// `Query_` name prefix, so its name is never empty, whatever empty
/// segments (leading, trailing or doubled `&`) the query string holds.
pub proof fn lemma_query_env_names(q: Seq<char>, i: int)
    requires
        0 <= i <= q.len(),
    ensures
        forall|k: int|
            0 <= k < query_env_from(q, i).len() ==> (#[trigger] query_env_from(q, i)[k]).0.len()
                > 0,
    decreases q.len() - i,
{
    reveal_strlit("Query_");
    if i < q.len() {
        lemma_find_char_from_props(q, i, '&');
        let e = find_char_from(q, i, '&');
        let hi = if e >= q.len() {
            q.len() as int
        } else {
            e
        };
        let seg = q.subrange(i, hi);
        assert forall|k: int|
            0 <= k < maybe_pair(seg).len() implies (#[trigger] maybe_pair(seg)[k]).0.len() > 0 by {
            assert(k == 0);
            assert(maybe_pair(seg)[0].0.len() >= "Query_"@.len());
        };
        if e < q.len() {
            lemma_query_env_names(q, e + 1);
            assert(query_env_from(q, i) == maybe_pair(seg) + query_env_from(q, e + 1));
            assert forall|k: int|
                0 <= k < query_env_from(q, i).len() implies (#[trigger] query_env_from(q, i)[k]).0.len()
                > 0 by {
                if k < maybe_pair(seg).len() {
                    assert(query_env_from(q, i)[k] == maybe_pair(seg)[k]);
                } else {
                    assert(query_env_from(q, i)[k] == query_env_from(q, e + 1)[k - maybe_pair(
                        seg,
                    ).len()]);
                }
            };
        } else {
            assert(query_env_from(q, i) == maybe_pair(seg));
        }
    }
}

/// The CGI environment holds no empty-named variable: query-derived
/// names carry the `Query_` prefix, the fixed names are `Method` and
/// `Path`, and request-header names are assumed non-empty.
pub proof fn lemma_cgi_env_no_empty_names(
    m: Seq<char>,
    p: Seq<char>,
    q: Seq<char>,
    hs: Seq<(Seq<char>, Seq<char>)>,
)
    requires
        forall|k: int| 0 <= k < hs.len() ==> (#[trigger] hs[k]).0.len() > 0,
    ensures
        forall|k: int|
            0 <= k < spec_cgi_env(m, p, q, hs).len() ==> (#[trigger] spec_cgi_env(m, p, q, hs)[k]).0.len()
                > 0,
{
    reveal_strlit("Method");
    reveal_strlit("Path");
    lemma_query_env_names(q, 0);
}

} // verus!
