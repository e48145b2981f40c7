//! The transport-level retry policy: a rate-limited response carries a
//! `retry-after` delay; the request is to be re-issued after waiting that
//! long, any other response is final. The decision is taken here; the
//! waiting and re-sending are the transport's.
//!
//! There is no retry cap: a persistently rate-limiting backend stalls the
//! call. Callers wanting a bound must impose it around the transport.

use vstd::prelude::*;
use vstd::string::StrSliceExecFns;
use crate::codec::{all_digits, is_digit, spec_digits_value};

verus! {

/// What to do with a response.
#[derive(Debug, PartialEq, Eq)]
pub enum RetryAction {
    /// Rate limited: wait this many seconds, then re-issue the identical
    /// request.
    RetryAfter { seconds: u64 },
    /// Not rate limited: hand the response to the caller.
    Finish,
}

/// A `retry-after` header value names a number of seconds exactly when it
/// is a decimal number in range.
pub open spec fn spec_parse_u64(s: Seq<char>) -> Option<u64> {
    if all_digits(s) && spec_digits_value(s) <= u64::MAX {
        Some(spec_digits_value(s) as u64)
    } else {
        None
    }
}

/// Parses the decimal seconds of a `retry-after` header value.
pub fn parse_retry_after(value: &str) -> (r: Option<u64>)
    ensures
        r == spec_parse_u64(value@),
{
    let n = value.unicode_len();
    if n == 0 {
        return None;
    }
    let mut acc: u64 = 0;
    let mut i: usize = 0;
    while i < n
        invariant
            0 <= i <= n == value@.len(),
            acc == spec_digits_value(value@.subrange(0, i as int)),
            forall|t: int| 0 <= t < i ==> is_digit(#[trigger] value@[t]),
        decreases n - i,
    {
        let c = value.get_char(i);
        let cv = c as u32;
        if cv < 48 || cv > 57 {
            proof {
                assert(!is_digit(value@[i as int]));
                assert(value@.subrange(0, n as int) =~= value@);
                assert(!all_digits(value@));
            }
            return None;
        }
        let d = (cv - 48) as u64;
        proof {
            assert(value@.subrange(0, i + 1).drop_last() =~= value@.subrange(0, i as int));
            assert(value@.subrange(0, i + 1).last() == value@[i as int]);
        }
        if acc > (u64::MAX - d) / 10 {
            proof {
                assert(spec_digits_value(value@.subrange(0, i + 1)) == acc * 10 + d);
                assert(acc * 10 + d > u64::MAX) by (nonlinear_arith)
                    requires
                        acc > (u64::MAX - d) / 10,
                        d <= 9,
                        acc <= u64::MAX,
                {}
                crate::codec::lemma_digits_value_prefix_mono(value@, i + 1);
                assert(value@.subrange(0, value@.len() as int) =~= value@);
                assert(spec_digits_value(value@) > u64::MAX);
            }
            return None;
        }
        proof {
            assert(acc * 10 + d <= u64::MAX) by (nonlinear_arith)
                requires
                    acc <= (u64::MAX - d) / 10,
                    d <= 9,
            {}
        }
        acc = acc * 10 + d;
        i = i + 1;
    }
    proof {
        assert(value@.subrange(0, n as int) =~= value@);
        assert(all_digits(value@));
    }
    Some(acc)
}

/// Decides what a response's rate-limit signal means: retry after the
/// signalled delay exactly when one is present, else finish.
pub fn retry_decision(retry_after: Option<u64>) -> (r: RetryAction)
    ensures
        match retry_after {
            Some(s) => r == (RetryAction::RetryAfter { seconds: s }),
            None => r == RetryAction::Finish,
        },
{
    match retry_after {
        Some(seconds) => RetryAction::RetryAfter { seconds },
        None => RetryAction::Finish,
    }
}

} // verus!
