//! The retry decision for one provider response. The request loop, the
//! exponential backoff schedule and the HTTP client run outside this
//! crate; they ask this module what to do with each response.

use vstd::prelude::*;

use crate::text::{chars_of, trim, trim_string};

verus! {

/// What to do with a response.
#[derive(Copy, Clone, Debug, PartialEq, Eq, Structural)]
pub enum RetryAction {
    /// A 2xx status: use the response.
    Accept,
    /// A permanent client error: give up.
    Fail,
    /// A transient error: retry, after the given delay in seconds when
    /// the server sent a usable `Retry-After`, else on the backoff
    /// schedule.
    Retry(Option<u64>),
}

/// Statuses that are worth retrying: request timeout, too early, too
/// many requests, and the transient 5xx family.
pub open spec fn is_transient_status(status: u16) -> bool {
    status == 408 || status == 425 || status == 429 || status == 500 || status == 502 || status
        == 503 || status == 504
}

/// The value of a decimal digit string, `None` when it is empty, holds a
/// non-digit, or exceeds `u64::MAX`.
pub open spec fn decimal_value(ds: Seq<char>) -> Option<nat>
    decreases ds.len(),
{
    if ds.len() == 0 {
        None
    } else {
        let d = ds.last();
        if !('0' <= d <= '9') {
            None
        } else if ds.len() == 1 {
            Some((d as nat - 48) as nat)
        } else {
            match decimal_value(ds.drop_last()) {
                Some(v) => Some(v * 10 + (d as nat - 48) as nat),
                None => None,
            }
        }
    }
}

/// What `u64::from_str` gives for `s`: an optional leading `+`, then
/// decimal digits whose value fits in `u64`.
pub open spec fn parse_u64(s: Seq<char>) -> Option<u64> {
    let ds = if s.len() > 0 && s[0] == '+' {
        s.drop_first()
    } else {
        s
    };
    match decimal_value(ds) {
        Some(v) => if v <= u64::MAX {
            Some(v as u64)
        } else {
            None
        },
        None => None,
    }
}

/// The decision for a response with this status and `Retry-After`
/// header text (when the header is present and readable): 2xx accepts;
/// a transient status retries, after `min(n, 60)` seconds when the
/// trimmed header parses as a whole number `n`; anything else fails.
pub open spec fn spec_retry_decision(status: u16, retry_after: Option<Seq<char>>) -> RetryAction {
    if 200 <= status <= 299 {
        RetryAction::Accept
    } else if is_transient_status(status) {
        RetryAction::Retry(
            match retry_after {
                Some(h) => match parse_u64(trim(h)) {
                    Some(n) => Some(if n < 60 {
                        n
                    } else {
                        60u64
                    }),
                    None => None,
                },
                None => None,
            },
        )
    } else {
        RetryAction::Fail
    }
}

/// Parse a whole number the way `u64::from_str` does.
pub fn parse_u64_decimal(s: &str) -> (r: Option<u64>)
    ensures
        r == parse_u64(s@),
{
    let cs = chars_of(s);
    let start: usize = if cs.len() > 0 && cs[0] == '+' {
        1
    } else {
        0
    };
    let ghost ds = if s@.len() > 0 && s@[0] == '+' {
        s@.drop_first()
    } else {
        s@
    };
    assert(ds == cs@.subrange(start as int, cs@.len() as int));
    if start >= cs.len() {
        return None;
    }
    let mut v: u64 = 0;
    let mut i = start;
    while i < cs.len()
        invariant
            start < cs@.len(),
            start <= i <= cs@.len(),
            cs@ == s@,
            ds == cs@.subrange(start as int, cs@.len() as int),
            ds == (if s@.len() > 0 && s@[0] == '+' {
                s@.drop_first()
            } else {
                s@
            }),
            i > start ==> decimal_value(cs@.subrange(start as int, i as int)) == Some(v as nat),
        decreases cs@.len() - i,
    {
        let c = cs[i];
        let ghost sub = cs@.subrange(start as int, i + 1);
        assert(sub.drop_last() == cs@.subrange(start as int, i as int));
        assert(sub.last() == c);
        if !('0' <= c && c <= '9') {
            proof {
                assert(cs@.subrange(start as int, cs@.len() as int).take(i + 1 - start) == sub);
                assert(decimal_value(sub) is None);
                lemma_decimal_prefix_none(cs@.subrange(start as int, cs@.len() as int), i + 1 - start);
            }
            return None;
        }
        let d = (c as u32 - 48) as u64;
        if i > start {
            if v > (u64::MAX - d) / 10 {
                proof {
                    assert(v * 10 + d > u64::MAX) by (nonlinear_arith)
                        requires
                            v > (u64::MAX - d) / 10,
                            d <= 9,
                    ;
                    assert(cs@.subrange(start as int, cs@.len() as int).take(i + 1 - start)
                        == sub);
                    assert((c as nat - 48) as nat == d as nat);
                    assert(decimal_value(sub) == Some(v as nat * 10 + d as nat));
                    lemma_decimal_prefix_big(
                        cs@.subrange(start as int, cs@.len() as int),
                        i + 1 - start,
                    );
                }
                return None;
            }
            assert(v * 10 + d <= u64::MAX) by (nonlinear_arith)
                requires
                    v <= (u64::MAX - d) / 10,
                    d <= 9,
            ;
            v = v * 10 + d;
        } else {
            v = d;
        }
        i = i + 1;
    }
    Some(v)
}

/// A prefix with no value has no longer extension with a value.
proof fn lemma_decimal_prefix_none(ds: Seq<char>, k: int)
    requires
        0 < k <= ds.len(),
        decimal_value(ds.take(k)) is None,
    ensures
        decimal_value(ds) is None,
    decreases ds.len() - k,
{
    if k < ds.len() {
        assert(ds.take(k + 1).drop_last() == ds.take(k));
        lemma_decimal_prefix_none(ds, k + 1);
    } else {
        assert(ds.take(k) == ds);
    }
}

/// A prefix whose value exceeds `u64::MAX` only grows.
proof fn lemma_decimal_prefix_big(ds: Seq<char>, k: int)
    requires
        0 < k <= ds.len(),
        decimal_value(ds.take(k)) matches Some(v) ==> v > u64::MAX,
    ensures
        decimal_value(ds) matches Some(v) ==> v > u64::MAX,
    decreases ds.len() - k,
{
    if k < ds.len() {
        assert(ds.take(k + 1).drop_last() == ds.take(k));
        lemma_decimal_prefix_big(ds, k + 1);
    } else {
        assert(ds.take(k) == ds);
    }
}

/// Decide what to do with a response.
pub fn retry_decision(status: u16, retry_after: Option<&str>) -> (a: RetryAction)
    ensures
        a == spec_retry_decision(
            status,
            match retry_after {
                Some(h) => Some(h@),
                None => None,
            },
        ),
{
    if 200 <= status && status <= 299 {
        RetryAction::Accept
    } else if status == 408 || status == 425 || status == 429 || status == 500 || status == 502
        || status == 503 || status == 504 {
        let delay = match retry_after {
            Some(h) => {
                let t = trim_string(h);
                match parse_u64_decimal(t.as_str()) {
                    Some(n) => Some(
                        if n < 60 {
                            n
                        } else {
                            60
                        },
                    ),
                    None => None,
                }
            },
            None => None,
        };
        RetryAction::Retry(delay)
    } else {
        RetryAction::Fail
    }
}

} // verus!
