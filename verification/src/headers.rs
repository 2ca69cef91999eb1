//! Header-line parsing and the header mapping: raw `Name: Value` lines
//! become trimmed key/value pairs, kept in insertion order with
//! last-write-wins lookup, plus the `Content-Length` extraction rule.

use vstd::prelude::*;
use crate::text::{find_char_from, lemma_find_char_from_at, scan_char_to, spec_trim, str_eq, trim};

verus! {

/// One parsed request header line: the blank line ending the header
/// section, a line without a colon (ignored), or a key/value pair.
pub enum HeaderLine {
    End,
    Skip,
    Pair(String, String),
}

/// The key/value split of an already-trimmed header line: the key is the
/// trimmed text before the first colon, the value the trimmed text
/// between the first and second colon (or the end). A line without a
/// colon has no pair.
pub open spec fn spec_header_kv(t: Seq<char>) -> Option<(Seq<char>, Seq<char>)> {
    let i = find_char_from(t, 0, ':');
    if i >= t.len() {
        None
    } else {
        let j = find_char_from(t, i + 1, ':');
        Some((spec_trim(t.subrange(0, i)), spec_trim(t.subrange(i + 1, j))))
    }
}

/// Parses one raw header line.
pub fn parse_header_line(line: &str) -> (r: HeaderLine)
    ensures
        ({
            let t = spec_trim(line@);
            &&& t.len() == 0 ==> r is End
            &&& t.len() > 0 && spec_header_kv(t) is None ==> r is Skip
            &&& t.len() > 0 && spec_header_kv(t) is Some ==> (r matches HeaderLine::Pair(k, v)
                && k@ == spec_header_kv(t).unwrap().0 && v@ == spec_header_kv(t).unwrap().1)
        }),
{
    let t = trim(line);
    let n = t.unicode_len();
    if n == 0 {
        return HeaderLine::End;
    }
    let i = scan_char_to(t, 0, n, ':');
    proof {
        lemma_find_char_from_at(t@, 0, ':', i as int);
    }
    if i == n {
        return HeaderLine::Skip;
    }
    let j = scan_char_to(t, i + 1, n, ':');
    proof {
        lemma_find_char_from_at(t@, i + 1, ':', j as int);
    }
    let key = trim(t.substring_char(0, i));
    let val = trim(t.substring_char(i + 1, j));
    HeaderLine::Pair(key.to_owned(), val.to_owned())
}

/// Last-write-wins lookup in an insertion-ordered key/value sequence.
pub open spec fn spec_lookup(m: Seq<(Seq<char>, Seq<char>)>, k: Seq<char>) -> Option<Seq<char>>
    decreases m.len(),
{
    if m.len() == 0 {
        None
    } else if m.last().0 == k {
        Some(m.last().1)
    } else {
        spec_lookup(m.drop_last(), k)
    }
}

/// Finds the most recently inserted value for `key`.
pub fn header_lookup<'a>(headers: &'a Vec<(String, String)>, key: &str) -> (r: Option<&'a String>)
    ensures
        match r {
            Some(v) => spec_lookup(headers.deep_view(), key@) == Some(v@),
            None => spec_lookup(headers.deep_view(), key@) is None,
        },
{
    let ghost hm = headers.deep_view();
    let mut i: usize = headers.len();
    proof {
        assert(hm.take(i as int) =~= hm);
    }
    while i > 0
        invariant
            0 <= i <= headers@.len(),
            hm == headers.deep_view(),
            hm.len() == headers@.len(),
            spec_lookup(hm, key@) == spec_lookup(hm.take(i as int), key@),
        decreases i,
    {
        let k = i - 1;
        proof {
            assert(hm[k as int] == (headers@[k as int].0@, headers@[k as int].1@));
            assert(hm.take(i as int).last() == hm[k as int]);
            assert(hm.take(i as int).drop_last() =~= hm.take(k as int));
        }
        if str_eq(headers[k].0.as_str(), key) {
            return Some(&headers[k].1);
        }
        i = k;
    }
    proof {
        assert(hm.take(0).len() == 0);
    }
    None
}

/// Whether a character is a decimal digit.
pub open spec fn is_digit(c: char) -> bool {
    48 <= c as int <= 57
}

pub open spec fn all_digits(s: Seq<char>) -> bool {
    forall|i: int| 0 <= i < s.len() ==> is_digit(s[i])
}

/// The value of a digit string read in base ten.
pub open spec fn dec_val(s: Seq<char>) -> int
    decreases s.len(),
{
    if s.len() == 0 {
        0
    } else {
        dec_val(s.drop_last()) * 10 + (s.last() as int - 48)
    }
}

pub proof fn lemma_dec_val_nonneg(s: Seq<char>)
    requires
        all_digits(s),
    ensures
        dec_val(s) >= 0,
    decreases s.len(),
{
    if s.len() > 0 {
        assert(all_digits(s.drop_last()));
        lemma_dec_val_nonneg(s.drop_last());
    }
}

pub proof fn lemma_dec_val_prefix(s: Seq<char>, k: int)
    requires
        all_digits(s),
        0 <= k <= s.len(),
    ensures
        dec_val(s.take(k)) <= dec_val(s),
    decreases s.len() - k,
{
    if k == s.len() {
        assert(s.take(k) =~= s);
    } else {
        lemma_dec_val_prefix(s, k + 1);
        assert(s.take(k + 1).drop_last() =~= s.take(k));
        assert(all_digits(s.take(k)));
        lemma_dec_val_nonneg(s.take(k));
        assert(dec_val(s.take(k + 1)) == dec_val(s.take(k)) * 10 + (s[k] as int - 48));
    }
}

/// The result of parsing an unsigned decimal: an optional leading `+`,
/// then one or more digits, rejecting empty input, other characters,
/// and values that overflow `usize`.
pub open spec fn spec_parse_usize(s: Seq<char>) -> Option<usize> {
    let t = if s.len() > 0 && s[0] == '+' {
        s.subrange(1, s.len() as int)
    } else {
        s
    };
    if t.len() > 0 && all_digits(t) && dec_val(t) <= usize::MAX {
        Some(dec_val(t) as usize)
    } else {
        None
    }
}

/// Parses an unsigned decimal number.
pub fn parse_usize(s: &str) -> (r: Option<usize>)
    ensures
        r == spec_parse_usize(s@),
{
    let n = s.unicode_len();
    let start: usize = if n > 0 && s.get_char(0) == '+' {
        1
    } else {
        0
    };
    let ghost t = if start == 1 {
        s@.subrange(1, s@.len() as int)
    } else {
        s@
    };
    if start == n {
        return None;
    }
    let limit: usize = usize::MAX / 10;
    let rem: usize = usize::MAX % 10;
    proof {
        vstd::arithmetic::div_mod::lemma_fundamental_div_mod(usize::MAX as int, 10);
    }
    let mut acc: usize = 0;
    let mut i: usize = start;
    while i < n
        invariant
            start <= i <= n,
            n == s@.len(),
            start == 0 || start == 1,
            start == 1 ==> n > 0 && s@[0] == '+',
            start == 0 ==> n == 0 || s@[0] != '+',
            t == if start == 1 {
                s@.subrange(1, s@.len() as int)
            } else {
                s@
            },
            t.len() == n - start,
            forall|j: int| 0 <= j < i - start ==> is_digit(t[j]),
            forall|j: int| 0 <= j < i - start ==> t[j] == s@[j + start],
            acc == dec_val(t.take(i - start)),
            limit == usize::MAX / 10,
            rem == usize::MAX % 10,
            usize::MAX as int == 10 * limit + rem,
        decreases n - i,
    {
        let c = s.get_char(i);
        let cu = c as u32;
        if cu < 48 || cu > 57 {
            proof {
                assert(t[i - start] == s@[i as int]);
                assert(!is_digit(t[i - start]));
                assert(!all_digits(t));
            }
            return None;
        }
        let d = (cu - 48) as usize;
        proof {
            assert(t.take(i - start + 1).drop_last() =~= t.take(i - start));
            assert(t.take(i - start + 1).last() == s@[i as int]);
            assert(dec_val(t.take(i - start + 1)) == acc * 10 + d);
        }
        if acc > limit || (acc == limit && d > rem) {
            proof {
                assert(dec_val(t.take(i - start + 1)) > usize::MAX);
                if all_digits(t) {
                    lemma_dec_val_prefix(t, i - start + 1);
                }
            }
            return None;
        }
        acc = acc * 10 + d;
        i += 1;
    }
    proof {
        assert(t.take(i - start) =~= t);
        assert(all_digits(t));
    }
    Some(acc)
}

/// The request body length declared by the headers: the value of
/// `Content-Length` (or, failing that, `Content-length`) parsed as a
/// decimal, with 0 for a missing or unparsable value.
pub open spec fn spec_content_length(m: Seq<(Seq<char>, Seq<char>)>) -> int {
    let v = if spec_lookup(m, "Content-Length"@) is Some {
        spec_lookup(m, "Content-Length"@)
    } else {
        spec_lookup(m, "Content-length"@)
    };
    match v {
        Some(val) => match spec_parse_usize(val) {
            Some(x) => x as int,
            None => 0,
        },
        None => 0,
    }
}

/// Reads the declared content length out of the header mapping.
pub fn content_length_of(headers: &Vec<(String, String)>) -> (r: usize)
    ensures
        r as int == spec_content_length(headers.deep_view()),
{
    let found = match header_lookup(headers, "Content-Length") {
        Some(v) => Some(v),
        None => header_lookup(headers, "Content-length"),
    };
    match found {
        Some(v) => match parse_usize(v.as_str()) {
            Some(x) => x,
            None => 0,
        },
        None => 0,
    }
}

} // verus!
