//! Request-line parsing: whitespace tokenization and separation of the
//! query string from the path.

use vstd::prelude::*;
use crate::text::{
    find_char_from, lemma_find_char_from_at, lemma_token_end_props, lemma_ws_end_props,
    scan_char_to, scan_token, scan_ws, token_end, ws_end,
};

verus! {

/// The whitespace-separated tokens of `s`, from index `i` on.
pub open spec fn spec_tokens_from(s: Seq<char>, i: int) -> Seq<Seq<char>>
    decreases s.len() - i,
        when 0 <= i
{
    let a = ws_end(s, i);
    if a >= s.len() {
        seq![]
    } else {
        proof {
            lemma_ws_end_props(s, i);
            lemma_token_end_props(s, a);
        }
        let b = token_end(s, a);
        seq![s.subrange(a, b)] + spec_tokens_from(s, b)
    }
}

/// The whitespace-separated tokens of a request line.
pub open spec fn spec_tokens(s: Seq<char>) -> Seq<Seq<char>> {
    spec_tokens_from(s, 0)
}

/// Splits a request line into its method and target tokens. A line with
/// fewer than two whitespace-separated tokens is malformed and yields
/// `None`.
pub fn parse_request_line<'a>(line: &'a str) -> (r: Option<(&'a str, &'a str)>)
    ensures
        r is Some <==> spec_tokens(line@).len() >= 2,
        r matches Some((m, t)) ==> m@ == spec_tokens(line@)[0] && t@ == spec_tokens(line@)[1],
{
    let n = line.unicode_len();
    let a = scan_ws(line, 0);
    if a == n {
        return None;
    }
    let b = scan_token(line, a);
    let method = line.substring_char(a, b);
    let c = scan_ws(line, b);
    proof {
        assert(spec_tokens(line@) == seq![line@.subrange(a as int, b as int)]
            + spec_tokens_from(line@, b as int));
    }
    if c == n {
        proof {
            assert(spec_tokens_from(line@, b as int) =~= Seq::<Seq<char>>::empty());
            assert(spec_tokens(line@).len() == 1);
        }
        return None;
    }
    let d = scan_token(line, c);
    let target = line.substring_char(c, d);
    proof {
        assert(spec_tokens_from(line@, b as int) == seq![line@.subrange(c as int, d as int)]
            + spec_tokens_from(line@, d as int));
        assert(spec_tokens(line@).len() >= 2);
        assert(spec_tokens(line@)[0] == line@.subrange(a as int, b as int));
        assert(spec_tokens(line@)[1] == line@.subrange(c as int, d as int));
    }
    Some((method, target))
}

/// Splits a request target at the first `?` into a path and a raw query
/// string; without a `?` the query string is empty.
pub fn split_query_string<'a>(path: &'a str) -> (r: (&'a str, &'a str))
    ensures
        ({
            let q = find_char_from(path@, 0, '?');
            &&& r.0@ == path@.subrange(0, q)
            &&& r.1@ == if q < path@.len() {
                path@.subrange(q + 1, path@.len() as int)
            } else {
                Seq::<char>::empty()
            }
        }),
{
    let n = path.unicode_len();
    let q = scan_char_to(path, 0, n, '?');
    proof {
        lemma_find_char_from_at(path@, 0, '?', q as int);
    }
    if q < n {
        (path.substring_char(0, q), path.substring_char(q + 1, n))
    } else {
        proof {
            reveal_strlit("");
            assert(path@.subrange(0, n as int) =~= path@);
            assert(""@ =~= Seq::<char>::empty());
        }
        (path, "")
    }
}

} // verus!
