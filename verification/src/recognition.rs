//! Reading the report of a one-shot recognition test (Howdy's `compare.py`): what
//! its exit code means and how many frames it scanned. The test itself, and the
//! fractional distance and frame rate it prints, are the caller's.
use vstd::prelude::*;

use crate::text::{
    chars_of, contains, contains_in, is_ws, is_ws_char, line_at, lines, lines_from, owned,
    parse_u32, parse_u32_chars, push_signed, signed_decimal,
};

verus! {

/// What an exit code of `compare.py` means.
pub open spec fn exit_message_spec(code: i32) -> Seq<char> {
    if code == 0 {
        "Face matched"@
    } else if code == 10 {
        "No face model enrolled for this user"@
    } else if code == 11 {
        "No match within the timeout"@
    } else if code == 12 {
        "Aborted"@
    } else if code == 13 {
        "Image too dark (check lighting / dark_threshold)"@
    } else {
        "compare.py exited with code "@ + signed_decimal(code as int)
    }
}

/// Human-readable summary of a `compare.py` exit code.
pub fn exit_message(code: i32) -> (m: String)
    ensures
        m@ == exit_message_spec(code),
{
    if code == 0 {
        owned("Face matched")
    } else if code == 10 {
        owned("No face model enrolled for this user")
    } else if code == 11 {
        owned("No match within the timeout")
    } else if code == 12 {
        owned("Aborted")
    } else if code == 13 {
        owned("Image too dark (check lighting / dark_threshold)")
    } else {
        let mut m = owned("compare.py exited with code ");
        push_signed(&mut m, code as i64);
        m
    }
}

/// The first index at or after `i` where `s` has (`ws`) or lacks (`!ws`)
/// whitespace, or `s.len()`.
pub open spec fn scan_ws(s: Seq<char>, i: int, ws: bool) -> int
    decreases s.len() - i,
{
    if i < 0 || i >= s.len() {
        s.len() as int
    } else if is_ws(s[i]) == ws {
        i
    } else {
        scan_ws(s, i + 1, ws)
    }
}

pub proof fn lemma_scan_ws(s: Seq<char>, i: int, ws: bool)
    requires
        0 <= i <= s.len(),
    ensures
        i <= scan_ws(s, i, ws) <= s.len(),
        forall|k: int| i <= k < scan_ws(s, i, ws) ==> is_ws(s[k]) != ws,
        scan_ws(s, i, ws) < s.len() ==> is_ws(s[scan_ws(s, i, ws)]) == ws,
    decreases s.len() - i,
{
    if i < s.len() && is_ws(s[i]) != ws {
        lemma_scan_ws(s, i + 1, ws);
    }
}

/// The first whitespace-separated token of `s[i..]` that parses as a `u32`
/// (`split_whitespace().find_map(|t| t.parse().ok())`).
pub open spec fn first_u32_token_from(s: Seq<char>, i: int) -> Option<u32>
    decreases s.len() - i,
{
    if i < 0 || i >= s.len() {
        None
    } else {
        let a = scan_ws(s, i, false);
        if a >= s.len() {
            None
        } else {
            let b = scan_ws(s, a, true);
            proof {
                lemma_scan_ws(s, i, false);
                lemma_scan_ws(s, a, true);
            }
            match parse_u32(s.subrange(a, b)) {
                Some(n) => Some(n),
                None => if b > i {
                    first_u32_token_from(s, b)
                } else {
                    None
                },
            }
        }
    }
}

/// The first line that contains `p`.
pub open spec fn first_line_with(ls: Seq<Seq<char>>, p: Seq<char>) -> Option<Seq<char>>
    decreases ls.len(),
{
    if ls.len() == 0 {
        None
    } else if contains(ls[0], p) {
        Some(ls[0])
    } else {
        first_line_with(ls.drop_first(), p)
    }
}

/// The frame count in a report: the first `u32` token of the first line that
/// mentions `Frames searched:`.
pub open spec fn frame_count(report: Seq<char>) -> Option<u32> {
    match first_line_with(lines(report), "Frames searched:"@) {
        Some(l) => first_u32_token_from(l, 0),
        None => None,
    }
}

/// The first `u32` token of `v[p..e]`.
fn first_u32_token(v: &Vec<char>, p: usize, e: usize) -> (r: Option<u32>)
    requires
        p <= e <= v.len(),
    ensures
        r == first_u32_token_from(v@.subrange(p as int, e as int), 0),
{
    let ghost s = v@.subrange(p as int, e as int);
    let mut i = p;
    while i < e
        invariant
            p <= i <= e <= v.len(),
            s == v@.subrange(p as int, e as int),
            first_u32_token_from(s, 0) == first_u32_token_from(s, i - p),
        decreases e - i,
    {
        let mut a = i;
        while a < e && is_ws_char(v[a])
            invariant
                p <= i <= a <= e <= v.len(),
                s == v@.subrange(p as int, e as int),
                scan_ws(s, i - p, false) == scan_ws(s, a - p, false),
            decreases e - a,
        {
            assert(s[a - p] == v@[a as int]);
            a = a + 1;
        }
        if a < e {
            assert(s[a - p] == v@[a as int]);
        }
        if a >= e {
            return None;
        }
        let mut b = a;
        while b < e && !is_ws_char(v[b])
            invariant
                p <= a <= b <= e <= v.len(),
                s == v@.subrange(p as int, e as int),
                scan_ws(s, a - p, true) == scan_ws(s, b - p, true),
            decreases e - b,
        {
            assert(s[b - p] == v@[b as int]);
            b = b + 1;
        }
        if b < e {
            assert(s[b - p] == v@[b as int]);
        }
        proof {
            lemma_scan_ws(s, i - p, false);
            lemma_scan_ws(s, a - p, true);
        }
        let mut tok: Vec<char> = Vec::new();
        let mut k = a;
        while k < b
            invariant
                a <= k <= b <= e <= v.len(),
                tok@ == v@.subrange(a as int, k as int),
            decreases b - k,
        {
            tok.push(v[k]);
            k = k + 1;
            assert(tok@ =~= v@.subrange(a as int, k as int));
        }
        assert(tok@ =~= s.subrange(a - p, b - p));
        match parse_u32_chars(&tok) {
            Some(n) => {
                return Some(n);
            },
            None => {},
        }
        i = b;
    }
    None
}

/// The number of frames `compare.py` reports having scanned, if it says.
pub fn parse_frame_count(report: &str) -> (r: Option<u32>)
    ensures
        r == frame_count(report@),
{
    let v = chars_of(report);
    let pat = chars_of("Frames searched:");
    let mut p: usize = 0;
    while p < v.len()
        invariant
            v@ == report@,
            pat@ == "Frames searched:"@,
            p <= v.len(),
            first_line_with(lines(report@), "Frames searched:"@) == first_line_with(
                lines_from(v@, p as int),
                "Frames searched:"@,
            ),
        decreases v.len() - p,
    {
        let (ce, next) = line_at(&v, p);
        let ghost ls = lines_from(v@, p as int);
        assert(ls[0] == v@.subrange(p as int, ce as int));
        assert(ls.drop_first() =~= lines_from(v@, next as int));
        if contains_in(&v, p, ce, &pat) {
            return first_u32_token(&v, p, ce);
        }
        p = next;
    }
    None
}

} // verus!
