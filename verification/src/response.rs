//! HTTP/1.0 response serialization: the fixed reason-phrase table,
//! decimal rendering of numbers, and the response wire format.

use vstd::prelude::*;
use crate::text::{ascii_bytes, append_ascii};

verus! {

/// Reason phrase for each status code of the fixed set; any other code
/// gets an empty reason.
pub open spec fn spec_status(code: u16) -> Seq<char> {
    if code == 200 {
        "OK"@
    } else if code == 400 {
        "Bad Request"@
    } else if code == 403 {
        "Forbidden"@
    } else if code == 404 {
        "Not Found"@
    } else if code == 405 {
        "Method Not Allowed"@
    } else if code == 500 {
        "Internal Server Error"@
    } else {
        ""@
    }
}

/// Maps a status code to its reason phrase.
pub fn get_status(status_code: u16) -> (r: &'static str)
    ensures
        r@ == spec_status(status_code),
        r.is_ascii(),
{
    if status_code == 200 {
        proof {
            reveal_strlit("OK");
        }
        "OK"
    } else if status_code == 400 {
        proof {
            reveal_strlit("Bad Request");
        }
        "Bad Request"
    } else if status_code == 403 {
        proof {
            reveal_strlit("Forbidden");
        }
        "Forbidden"
    } else if status_code == 404 {
        proof {
            reveal_strlit("Not Found");
        }
        "Not Found"
    } else if status_code == 405 {
        proof {
            reveal_strlit("Method Not Allowed");
        }
        "Method Not Allowed"
    } else if status_code == 500 {
        proof {
            reveal_strlit("Internal Server Error");
        }
        "Internal Server Error"
    } else {
        proof {
            reveal_strlit("");
        }
        ""
    }
}

/// The character holding decimal digit `d`.
pub open spec fn digit_char(d: int) -> char {
    ((d + 48) as u8) as char
}

/// The decimal digits of `n`, most significant first.
pub open spec fn dec_digits(n: int) -> Seq<char>
    decreases n,
{
    if n < 10 {
        seq![digit_char(n)]
    } else {
        dec_digits(n / 10).push(digit_char(n % 10))
    }
}

/// Appends the decimal digits of `n` to a byte vector.
pub fn push_decimal(out: &mut Vec<u8>, n: u64)
    ensures
        final(out)@ == old(out)@ + ascii_bytes(dec_digits(n as int)),
    decreases n,
{
    if n >= 10 {
        push_decimal(out, n / 10);
    }
    let d = (n % 10) as u8;
    out.push(d + 48);
    proof {
        assert(out@ =~= old(out)@ + ascii_bytes(dec_digits(n as int)));
    }
}

/// The serialized extra-header block: each header line preceded by CRLF.
pub open spec fn headers_block_from(hs: Seq<Seq<u8>>, i: int) -> Seq<u8>
    decreases hs.len() - i,
{
    if i < 0 || i >= hs.len() {
        Seq::empty()
    } else {
        seq![13u8, 10u8] + hs[i] + headers_block_from(hs, i + 1)
    }
}

/// The full response on the wire: status line, extra headers (suppressed
/// for status 500), the fixed `Connection: close` header, a blank line,
/// then the body.
pub open spec fn spec_response(code: u16, headers: Seq<Seq<u8>>, body: Seq<u8>) -> Seq<u8> {
    ascii_bytes("HTTP/1.0 "@) + ascii_bytes(dec_digits(code as int)) + ascii_bytes(" "@)
        + ascii_bytes(spec_status(code)) + (if code == 500 {
        Seq::<u8>::empty()
    } else {
        headers_block_from(headers, 0)
    }) + ascii_bytes("\r\nConnection: close\r\n\r\n"@) + body
}

/// Serializes a response. Extra header values are copied verbatim; when
/// the status is 500 the extra headers are suppressed so that a failure
/// response never carries caller-supplied header lines.
pub fn render_response(status_code: u16, body: &[u8], additional_headers: &Vec<Vec<u8>>) -> (r:
    Vec<u8>)
    ensures
        r@ == spec_response(status_code, additional_headers.deep_view(), body@),
{
    let ghost hv = additional_headers.deep_view();
    let mut out: Vec<u8> = Vec::new();
    proof {
        reveal_strlit("HTTP/1.0 ");
    }
    append_ascii(&mut out, "HTTP/1.0 ");
    push_decimal(&mut out, status_code as u64);
    proof {
        reveal_strlit(" ");
    }
    append_ascii(&mut out, " ");
    let reason = get_status(status_code);
    append_ascii(&mut out, reason);
    if status_code != 500 {
        let ghost pre = out@;
        let mut i: usize = 0;
        while i < additional_headers.len()
            invariant
                0 <= i <= additional_headers@.len(),
                hv == additional_headers.deep_view(),
                hv.len() == additional_headers@.len(),
                out@ + headers_block_from(hv, i as int) == pre + headers_block_from(hv, 0),
            decreases additional_headers@.len() - i,
        {
            let ghost before = out@;
            out.push(13u8);
            out.push(10u8);
            out.extend_from_slice(additional_headers[i].as_slice());
            proof {
                assert(hv[i as int] == additional_headers@[i as int]@);
                assert(out@ =~= before + (seq![13u8, 10u8] + hv[i as int]));
                assert(out@ + headers_block_from(hv, i + 1) =~= before + headers_block_from(
                    hv,
                    i as int,
                ));
            }
            i += 1;
        }
        proof {
            assert(out@ + headers_block_from(hv, i as int) =~= out@);
        }
    }
    proof {
        reveal_strlit("\r\nConnection: close\r\n\r\n");
    }
    append_ascii(&mut out, "\r\nConnection: close\r\n\r\n");
    out.extend_from_slice(body);
    proof {
        assert(out@ =~= spec_response(status_code, hv, body@));
    }
    out
}

} // verus!
