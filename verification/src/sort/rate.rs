//! Request rates, kept exact as a count over a span of time.

use crate::rpc::types::LimitedVecDeque;
use vstd::prelude::*;

verus! {

/// A rate of requests: `requests` of them over `span_ms` milliseconds, that
/// is `requests * 60000 / span_ms` a minute. A rate over an empty span is
/// above every rate over a span that is not.
#[derive(Debug, Clone, Copy, PartialEq, Eq, Structural)]
pub struct RequestRate {
    pub requests: u64,
    pub span_ms: u64,
}

/// A rate as a count over a span.
pub struct Rate {
    pub requests: int,
    pub span_ms: int,
}

impl View for RequestRate {
    type V = Rate;

    open spec fn view(&self) -> Rate {
        Rate { requests: self.requests as int, span_ms: self.span_ms as int }
    }
}

/// The arrival times, newest first, do not run backwards from the oldest to
/// the newest.
pub open spec fn arrivals_in_order(arrivals: Seq<u64>) -> bool {
    arrivals.len() >= 2 ==> arrivals.last() <= arrivals.first()
}

/// The rate that a window of arrival times shows: none with fewer than two
/// arrivals, else all of them over the time from the oldest to the newest.
pub open spec fn arrival_rate(arrivals: Seq<u64>) -> Rate {
    if arrivals.len() < 2 {
        Rate { requests: 0, span_ms: 1 }
    } else {
        Rate { requests: arrivals.len() as int, span_ms: arrivals.first() - arrivals.last() }
    }
}

/// The rate is of some number of requests over some span, not of none over
/// no time.
pub open spec fn rate_wf(rate: Rate) -> bool {
    &&& rate.requests >= 0
    &&& rate.span_ms >= 0
    &&& rate.requests == 0 ==> rate.span_ms > 0
}

/// The first rate is strictly below the second.
pub open spec fn rate_below(a: Rate, b: Rate) -> bool {
    a.requests * b.span_ms < b.requests * a.span_ms
}

/// Where neither `a` is below `b` nor `b` below `c`, `a` is not below `c`.
pub proof fn lemma_rate_transitive(a: Rate, b: Rate, c: Rate)
    requires
        rate_wf(a),
        rate_wf(b),
        rate_wf(c),
        !rate_below(a, b),
        !rate_below(b, c),
    ensures
        !rate_below(a, c),
{
    let (an, asp) = (a.requests, a.span_ms);
    let (bn, bsp) = (b.requests, b.span_ms);
    let (cn, csp) = (c.requests, c.span_ms);
    assert(an * bsp >= bn * asp);
    assert(bn * csp >= cn * bsp);
    if bsp == 0 {
        assert(asp == 0) by (nonlinear_arith)
            requires
                an * bsp >= bn * asp,
                bsp == 0,
                bn > 0,
                asp >= 0,
        ;
        assert(an * csp >= cn * asp) by (nonlinear_arith)
            requires
                asp == 0,
                an >= 0,
                csp >= 0,
        ;
    } else {
        assert(an * bsp * csp >= bn * asp * csp) by (nonlinear_arith)
            requires
                an * bsp >= bn * asp,
                csp >= 0,
        ;
        assert(bn * csp * asp >= cn * bsp * asp) by (nonlinear_arith)
            requires
                bn * csp >= cn * bsp,
                asp >= 0,
        ;
        assert(an * csp >= cn * asp) by (nonlinear_arith)
            requires
                an * bsp * csp >= bn * asp * csp,
                bn * csp * asp >= cn * bsp * asp,
                bsp > 0,
        ;
    }
}

/// Tells whether the first rate is strictly below the second.
pub fn is_rate_below(a: &RequestRate, b: &RequestRate) -> (below: bool)
    ensures
        below == rate_below(a@, b@),
{
    proof {
        let max: int = 0xFFFF_FFFF_FFFF_FFFF;
        let (an, asp) = (a.requests as int, a.span_ms as int);
        let (bn, bsp) = (b.requests as int, b.span_ms as int);
        assert(an * bsp <= max * max && bn * asp <= max * max) by (nonlinear_arith)
            requires
                0 <= an <= max,
                0 <= asp <= max,
                0 <= bn <= max,
                0 <= bsp <= max,
        ;
    }
    let left: u128 = (a.requests as u128) * (b.span_ms as u128);
    let right: u128 = (b.requests as u128) * (a.span_ms as u128);
    left < right
}

/// The rate of requests that a window of arrival times shows. The window
/// holds times in milliseconds, newest first.
pub fn rpc_requests_per_minute(arrivals_ts: &LimitedVecDeque) -> (rate: RequestRate)
    requires
        arrivals_in_order(arrivals_ts@.values),
    ensures
        rate@ == arrival_rate(arrivals_ts@.values),
        rate_wf(rate@),
{
    let n: usize = arrivals_ts.deque.len();
    if n < 2 {
        return RequestRate { requests: 0, span_ms: 1 };
    }
    let first_arrival_ts: u64 = arrivals_ts.deque[n - 1];
    let last_arrival_ts: u64 = arrivals_ts.deque[0];
    RequestRate { requests: n as u64, span_ms: last_arrival_ts - first_arrival_ts }
}

} // verus!
