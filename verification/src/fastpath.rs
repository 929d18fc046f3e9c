//! Fast-path detector.
//!
//! Classifies a target URL as a social status page — optional `http://` or
//! `https://` scheme, host `x.com` or `twitter.com`, then a path of
//! `/<handle>/status/<numeric-id>` where the handle is one or more
//! alphanumeric or underscore characters and the id starts with a digit;
//! anything may follow the id.  A status page is extracted through a fixed
//! selector instead of the density heuristic.
use vstd::prelude::*;
use vstd::string::StrSliceExecFns;

verus! {

/// Characters allowed in an account handle: ASCII letters, digits, underscore.
pub open spec fn is_handle_char(c: char) -> bool {
    ||| 'a' as u32 <= c as u32 && c as u32 <= 'z' as u32
    ||| 'A' as u32 <= c as u32 && c as u32 <= 'Z' as u32
    ||| '0' as u32 <= c as u32 && c as u32 <= '9' as u32
    ||| c == '_'
}

/// ASCII decimal digits.
pub open spec fn is_digit_char(c: char) -> bool {
    '0' as u32 <= c as u32 && c as u32 <= '9' as u32
}

/// The URL with one optional leading scheme removed.
pub open spec fn strip_scheme(s: Seq<char>) -> Seq<char> {
    if s.len() >= 8 && s.subrange(0, 8) == "https://"@ {
        s.skip(8)
    } else if s.len() >= 7 && s.subrange(0, 7) == "http://"@ {
        s.skip(7)
    } else {
        s
    }
}

/// The path after one of the two recognized hosts, or `None` when the URL
/// names neither host.
pub open spec fn host_tail(s: Seq<char>) -> Option<Seq<char>> {
    let r = strip_scheme(s);
    if r.len() >= 6 && r.subrange(0, 6) == "x.com/"@ {
        Some(r.skip(6))
    } else if r.len() >= 12 && r.subrange(0, 12) == "twitter.com/"@ {
        Some(r.skip(12))
    } else {
        None
    }
}

/// Length of the maximal leading run of handle characters.
pub open spec fn handle_run(p: Seq<char>) -> int
    decreases p.len(),
{
    if p.len() == 0 || !is_handle_char(p[0]) {
        0
    } else {
        1 + handle_run(p.skip(1))
    }
}

/// A nonempty handle, then `/status/`, then at least one digit.  Since `/`
/// is not a handle character, the handle can only be the maximal leading run.
pub open spec fn path_matches(p: Seq<char>) -> bool {
    let h = handle_run(p);
    &&& 1 <= h
    &&& h + 9 <= p.len()
    &&& p.subrange(h, h + 8) == "/status/"@
    &&& is_digit_char(p[h + 8])
}

/// Whether the URL has the status-page shape.
pub open spec fn spec_is_status_url(s: Seq<char>) -> bool {
    match host_tail(s) {
        Some(p) => path_matches(p),
        None => false,
    }
}

/// The maximal leading run of handle characters is the unique position `k`
/// with only handle characters before it and none at it.
proof fn lemma_handle_run_is(p: Seq<char>, k: int)
    requires
        0 <= k <= p.len(),
        forall|j: int| 0 <= j < k ==> is_handle_char(p[j]),
        k == p.len() || !is_handle_char(p[k]),
    ensures
        handle_run(p) == k,
    decreases k,
{
    if k == 0 {
        assert(handle_run(p) == 0);
    } else {
        assert(is_handle_char(p[0]));
        let q = p.skip(1);
        assert(forall|j: int| 0 <= j < k - 1 ==> q[j] == p[j + 1] && is_handle_char(q[j]));
        if k - 1 < q.len() {
            assert(q[k - 1] == p[k]);
        }
        lemma_handle_run_is(q, k - 1);
    }
}

/// Whether `pat` occurs in `s` at character position `at`.
fn has_prefix_at(s: &str, at: usize, pat: &str) -> (r: bool)
    requires
        at <= s@.len(),
    ensures
        r == (at + pat@.len() <= s@.len() && s@.subrange(
            at as int,
            at as int + pat@.len(),
        ) == pat@),
{
    let n = s.unicode_len();
    let m = pat.unicode_len();
    if m > n - at {
        return false;
    }
    let mut j: usize = 0;
    while j < m
        invariant
            0 <= j <= m,
            at + m <= n,
            n == s@.len(),
            m == pat@.len(),
            forall|k: int| 0 <= k < j ==> s@[at + k] == pat@[k],
        decreases m - j,
    {
        if s.get_char(at + j) != pat.get_char(j) {
            proof {
                let sub = s@.subrange(at as int, at as int + pat@.len());
                if sub == pat@ {
                    assert(sub[j as int] == s@[at + j]);
                }
            }
            return false;
        }
        j += 1;
    }
    proof {
        assert(s@.subrange(at as int, at as int + pat@.len()) =~= pat@);
    }
    true
}

/// Whether the character may appear in a handle.
fn handle_char(c: char) -> (r: bool)
    ensures
        r == is_handle_char(c),
{
    let u = c as u32;
    (97 <= u && u <= 122) || (65 <= u && u <= 90) || (48 <= u && u <= 57) || c == '_'
}

/// Classifies the target URL: `true` selects the fixed-selector fast path,
/// `false` the content-density heuristic.
pub fn is_status_url(url: &str) -> (r: bool)
    ensures
        r == spec_is_status_url(url@),
{
    proof {
        reveal_strlit("https://");
        reveal_strlit("http://");
        reveal_strlit("x.com/");
        reveal_strlit("twitter.com/");
        reveal_strlit("/status/");
    }
    let n = url.unicode_len();
    let base: usize = if has_prefix_at(url, 0, "https://") {
        8
    } else if has_prefix_at(url, 0, "http://") {
        7
    } else {
        0
    };
    proof {
        assert(strip_scheme(url@) =~= url@.skip(base as int));
    }
    let host: usize = if has_prefix_at(url, base, "x.com/") {
        6
    } else if has_prefix_at(url, base, "twitter.com/") {
        12
    } else {
        proof {
            let r = strip_scheme(url@);
            assert(r.len() >= 6 ==> r.subrange(0, 6) =~= url@.subrange(
                base as int,
                base as int + 6,
            ));
            assert(r.len() >= 12 ==> r.subrange(0, 12) =~= url@.subrange(
                base as int,
                base as int + 12,
            ));
        }
        return false;
    };
    let start = base + host;
    let ghost p = url@.skip(start as int);
    proof {
        let r = strip_scheme(url@);
        if r.len() >= 6 {
            assert(r.subrange(0, 6) =~= url@.subrange(base as int, base as int + 6));
        }
        if r.len() >= 12 {
            assert(r.subrange(0, 12) =~= url@.subrange(base as int, base as int + 12));
        }
        assert(r.skip(host as int) =~= p);
        assert(host_tail(url@) == Some(p));
    }
    let mut h = start;
    while h < n && handle_char(url.get_char(h))
        invariant
            start <= h <= n,
            n == url@.len(),
            start <= n,
            p == url@.skip(start as int),
            forall|j: int| 0 <= j < h - start ==> is_handle_char(p[j]),
        decreases n - h,
    {
        proof {
            assert(p[h - start] == url@[h as int]);
        }
        h = h + 1;
    }
    proof {
        if h < n {
            assert(p[h - start] == url@[h as int]);
        }
        lemma_handle_run_is(p, h - start);
    }
    if h == start {
        return false;
    }
    if !has_prefix_at(url, h, "/status/") {
        proof {
            assert(p.len() >= h - start + 8 ==> p.subrange(h - start, h - start + 8)
                =~= url@.subrange(h as int, h as int + 8));
        }
        return false;
    }
    proof {
        assert(p.subrange(h - start, h - start + 8) =~= url@.subrange(h as int, h as int + 8));
    }
    if h + 8 < n {
        let d = url.get_char(h + 8);
        proof {
            assert(p[h - start + 8] == url@[h as int + 8]);
        }
        let u = d as u32;
        48 <= u && u <= 57
    } else {
        false
    }
}

} // verus!
