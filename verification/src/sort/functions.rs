//! The orderings that the selection algorithms put on a list of backends.

use crate::rpc::types::{Rpc, RpcLocation, RpcView};
use crate::sort::rate::{
    arrival_rate, arrivals_in_order, is_rate_below, lemma_rate_transitive, rate_below,
};
pub use crate::sort::rate::rpc_requests_per_minute;
use crate::sort::types::Algo;
use std::cmp::Ordering;
use vstd::prelude::*;

verus! {

/// How two localities compare: a local backend comes before an external one.
pub open spec fn location_order(a: RpcLocation, b: RpcLocation) -> Ordering {
    match (a, b) {
        (RpcLocation::Local, RpcLocation::External) => Ordering::Less,
        (RpcLocation::External, RpcLocation::Local) => Ordering::Greater,
        _ => Ordering::Equal,
    }
}

/// Compares two localities.
pub fn compare_rpc_location(a: &RpcLocation, b: &RpcLocation) -> (order: Ordering)
    ensures
        order == location_order(*a, *b),
{
    match (a, b) {
        (RpcLocation::Local, RpcLocation::External) => Ordering::Less,
        (RpcLocation::External, RpcLocation::Local) => Ordering::Greater,
        _ => Ordering::Equal,
    }
}

/// Backend `a` is strictly preferred to backend `b`: it has the higher
/// block; at equal blocks it is local and `b` external; at equal blocks and
/// locality it has, under `RoundRobin`, the lower rate of arrivals, and under
/// the other algorithms the earlier arrival of its last block.
pub open spec fn preferred(algo: Algo, a: RpcView, b: RpcView) -> bool {
    if a.last_block != b.last_block {
        a.last_block > b.last_block
    } else if a.rpc_location != b.rpc_location {
        a.rpc_location == RpcLocation::Local
    } else if algo == Algo::RoundRobin {
        rate_below(arrival_rate(a.arrivals_ts.values), arrival_rate(b.arrivals_ts.values))
    } else {
        a.current_ts < b.current_ts
    }
}

/// What each backend of a list holds, in the order of the list.
pub open spec fn views_of(list: Seq<&Rpc>) -> Seq<RpcView> {
    Seq::new(list.len(), |i: int| list[i]@)
}

/// What the algorithm asks of a list before it orders it: `RoundRobin` reads
/// a rate from each backend's arrival times, which must not run backwards.
pub open spec fn sortable(algo: Algo, list: Seq<RpcView>) -> bool {
    algo == Algo::RoundRobin ==> forall|i: int|
        0 <= i < list.len() ==> arrivals_in_order((#[trigger] list[i]).arrivals_ts.values)
}

/// `order` names, for each place of `output`, the place of `input` that its
/// backend was taken from, and no place of `input` twice.
pub open spec fn arranges(input: Seq<RpcView>, output: Seq<RpcView>, order: Seq<int>) -> bool {
    &&& order.len() == input.len()
    &&& output.len() == input.len()
    &&& forall|i: int|
        0 <= i < order.len() ==> 0 <= #[trigger] order[i] < input.len() && output[i]
            == input[order[i]]
    &&& forall|i: int, j: int|
        0 <= i < j < order.len() ==> #[trigger] order[i] != #[trigger] order[j]
}

/// `output` is `input` in the order of the algorithm: the same backends, none
/// after one that it is preferred to, and those that the algorithm does not
/// tell apart in the order in which `input` had them.
pub open spec fn selection_order(
    algo: Algo,
    input: Seq<RpcView>,
    output: Seq<RpcView>,
    order: Seq<int>,
) -> bool {
    &&& arranges(input, output, order)
    &&& forall|i: int, j: int|
        0 <= i < j < output.len() ==> !preferred(algo, #[trigger] output[j], #[trigger] output[i])
    &&& forall|i: int, j: int|
        0 <= i < j < output.len() && !preferred(algo, #[trigger] output[i], #[trigger] output[j])
            ==> order[i] < order[j]
}

/// `output` is `input` put in the order of the algorithm.
pub open spec fn selected(algo: Algo, input: Seq<RpcView>, output: Seq<RpcView>) -> bool {
    exists|order: Seq<int>| selection_order(algo, input, output, order)
}

/// The algorithm whose order the dispatcher uses for a configured one.
pub open spec fn effective(algo: Algo) -> Algo {
    if algo == Algo::RoundRobin {
        Algo::RoundRobin
    } else {
        Algo::MinLatency
    }
}

/// In a selected list a backend stands before every backend that it is
/// preferred to.
pub proof fn law_preferred_first(
    algo: Algo,
    input: Seq<RpcView>,
    output: Seq<RpcView>,
    i: int,
    j: int,
)
    requires
        selected(algo, input, output),
        0 <= i < output.len(),
        0 <= j < output.len(),
        preferred(algo, output[i], output[j]),
    ensures
        i < j,
{
    let order = choose|order: Seq<int>| selection_order(algo, input, output, order);
    if j < i {
        assert(!preferred(algo, output[i], output[j]));
    }
}

/// Under `MinLatency`, a backend with a higher block stands before one with
/// a lower block.
pub proof fn law_freshest_tip_first(input: Seq<RpcView>, output: Seq<RpcView>, i: int, j: int)
    requires
        selected(Algo::MinLatency, input, output),
        0 <= i < output.len(),
        0 <= j < output.len(),
        output[i].last_block > output[j].last_block,
    ensures
        i < j,
{
    law_preferred_first(Algo::MinLatency, input, output, i, j);
}

/// Under `MinLatency`, of two backends at the same block the local one
/// stands before the external one.
pub proof fn law_local_before_external(input: Seq<RpcView>, output: Seq<RpcView>, i: int, j: int)
    requires
        selected(Algo::MinLatency, input, output),
        0 <= i < output.len(),
        0 <= j < output.len(),
        output[i].last_block == output[j].last_block,
        output[i].rpc_location == RpcLocation::Local,
        output[j].rpc_location == RpcLocation::External,
    ensures
        i < j,
{
    law_preferred_first(Algo::MinLatency, input, output, i, j);
}

/// Under `MinLatency`, of two backends at the same block and of the same
/// locality the one whose last block arrived earlier stands first.
pub proof fn law_earliest_arrival_first(input: Seq<RpcView>, output: Seq<RpcView>, i: int, j: int)
    requires
        selected(Algo::MinLatency, input, output),
        0 <= i < output.len(),
        0 <= j < output.len(),
        output[i].last_block == output[j].last_block,
        output[i].rpc_location == output[j].rpc_location,
        output[i].current_ts < output[j].current_ts,
    ensures
        i < j,
{
    law_preferred_first(Algo::MinLatency, input, output, i, j);
}

/// Under `RoundRobin`, the first two keys are those of `MinLatency`, and of
/// two backends at the same block and of the same locality the one with the
/// lower rate of arrivals stands first.
pub proof fn law_round_robin_order(input: Seq<RpcView>, output: Seq<RpcView>, i: int, j: int)
    requires
        selected(Algo::RoundRobin, input, output),
        0 <= i < output.len(),
        0 <= j < output.len(),
        output[i].last_block > output[j].last_block || (output[i].last_block
            == output[j].last_block && (if output[i].rpc_location != output[j].rpc_location {
            output[i].rpc_location == RpcLocation::Local
        } else {
            rate_below(
                arrival_rate(output[i].arrivals_ts.values),
                arrival_rate(output[j].arrivals_ts.values),
            )
        })),
    ensures
        i < j,
{
    law_preferred_first(Algo::RoundRobin, input, output, i, j);
}

/// Backends that the algorithm does not tell apart keep the order in which
/// the input had them.
pub proof fn law_ties_keep_input_order(
    algo: Algo,
    input: Seq<RpcView>,
    output: Seq<RpcView>,
    order: Seq<int>,
    i: int,
    j: int,
)
    requires
        selection_order(algo, input, output, order),
        0 <= i < j < output.len(),
        !preferred(algo, output[i], output[j]),
    ensures
        order[i] < order[j],
        output[i] == input[order[i]],
        output[j] == input[order[j]],
{
}

/// A selected list holds what the input held: each backend as often.
pub proof fn law_same_backends(algo: Algo, input: Seq<RpcView>, output: Seq<RpcView>)
    requires
        selected(algo, input, output),
    ensures
        output.len() == input.len(),
        forall|i: int| 0 <= i < output.len() ==> input.contains(#[trigger] output[i]),
        forall|p: int| 0 <= p < input.len() ==> output.contains(#[trigger] input[p]),
{
    let order = choose|order: Seq<int>| selection_order(algo, input, output, order);
    assert forall|i: int| 0 <= i < output.len() implies input.contains(#[trigger] output[i]) by {
        assert(output[i] == input[order[i]]);
    }
    assert forall|p: int| 0 <= p < input.len() implies output.contains(#[trigger] input[p]) by {
        lemma_order_onto(order, input.len() as int, p);
        let i = choose|i: int| 0 <= i < order.len() && order[i] == p;
        assert(output[i] == input[p]);
    }
}

/// A list of `n` different numbers below `n` holds each number below `n`.
proof fn lemma_order_onto(order: Seq<int>, n: int, p: int)
    requires
        order.len() == n,
        forall|i: int| 0 <= i < n ==> 0 <= #[trigger] order[i] < n,
        forall|i: int, j: int| 0 <= i < j < n ==> #[trigger] order[i] != #[trigger] order[j],
        0 <= p < n,
    ensures
        exists|i: int| 0 <= i < order.len() && order[i] == p,
{
    let values = order.to_set();
    assert(order.no_duplicates());
    order.unique_seq_to_set();
    assert(values.len() == n);
    let below = Set::new(|v: int| 0 <= v < n);
    vstd::set_lib::lemma_int_range(0, n);
    assert(below =~= vstd::set_lib::set_int_range(0, n));
    assert(values.subset_of(below)) by {
        assert forall|v: int| values.contains(v) implies below.contains(v) by {
            let i = choose|i: int| 0 <= i < order.len() && order[i] == v;
        }
    }
    vstd::set_lib::lemma_subset_equality(values, below);
    assert(values.contains(p));
}

/// Tells whether `a` is strictly preferred to `b`.
pub fn prefers(algo: Algo, a: &Rpc, b: &Rpc) -> (first: bool)
    requires
        algo == Algo::RoundRobin ==> arrivals_in_order(a@.arrivals_ts.values) && arrivals_in_order(
            b@.arrivals_ts.values,
        ),
    ensures
        first == preferred(algo, a@, b@),
{
    if a.last_block != b.last_block {
        return a.last_block > b.last_block;
    }
    match compare_rpc_location(&a.rpc_location, &b.rpc_location) {
        Ordering::Less => true,
        Ordering::Greater => false,
        Ordering::Equal => match algo {
            Algo::RoundRobin => {
                let a_arrivals_per_minute = rpc_requests_per_minute(&a.arrivals_ts);
                let b_arrivals_per_minute = rpc_requests_per_minute(&b.arrivals_ts);
                is_rate_below(&a_arrivals_per_minute, &b_arrivals_per_minute)
            },
            _ => a.current_ts < b.current_ts,
        },
    }
}

/// Of two backends at most one is preferred to the other.
pub proof fn lemma_preferred_asymmetric(algo: Algo, a: RpcView, b: RpcView)
    ensures
        !(preferred(algo, a, b) && preferred(algo, b, a)),
{
}

/// Where neither `a` is preferred to `b` nor `b` to `c`, `a` is not
/// preferred to `c`.
pub proof fn lemma_preferred_transitive(algo: Algo, a: RpcView, b: RpcView, c: RpcView)
    requires
        algo == Algo::RoundRobin ==> arrivals_in_order(a.arrivals_ts.values) && arrivals_in_order(
            b.arrivals_ts.values,
        ) && arrivals_in_order(c.arrivals_ts.values),
        !preferred(algo, a, b),
        !preferred(algo, b, c),
    ensures
        !preferred(algo, a, c),
{
    if algo == Algo::RoundRobin && a.last_block == b.last_block && b.last_block == c.last_block
        && a.rpc_location == b.rpc_location && b.rpc_location == c.rpc_location {
        lemma_rate_transitive(
            arrival_rate(a.arrivals_ts.values),
            arrival_rate(b.arrivals_ts.values),
            arrival_rate(c.arrivals_ts.values),
        );
    }
}

/// Orders the list by the algorithm, keeping the backends that it does not
/// tell apart in the order in which they came.
fn stable_sort<'a>(algo: Algo, list: Vec<&'a Rpc>) -> (sorted: Vec<&'a Rpc>)
    requires
        sortable(algo, views_of(list@)),
    ensures
        selected(algo, views_of(list@), views_of(sorted@)),
{
    let mut sorted: Vec<&'a Rpc> = Vec::new();
    let ghost mut order: Seq<int> = Seq::empty();
    let mut n: usize = 0;
    while n < list.len()
        invariant
            n <= list.len(),
            sortable(algo, views_of(list@)),
            selection_order(algo, views_of(list@.subrange(0, n as int)), views_of(sorted@), order),
        decreases list.len() - n,
    {
        let next: &'a Rpc = list[n];
        let ghost before = sorted@;
        let ghost old_order = order;
        let ghost taken = list@.subrange(0, n as int);
        let mut at: usize = sorted.len();
        assert(views_of(list@)[n as int] == next@);
        assert forall|k: int| 0 <= k < before.len() implies arrivals_in_order(
            (#[trigger] before[k])@.arrivals_ts.values,
        ) || algo != Algo::RoundRobin by {
            assert(views_of(before)[k] == views_of(taken)[old_order[k]]);
            assert(views_of(taken)[old_order[k]] == views_of(list@)[old_order[k]]);
        }
        while at > 0 && prefers(algo, next, sorted[at - 1])
            invariant
                at <= sorted.len(),
                sorted@ == before,
                n < list.len(),
                next == list@[n as int],
                algo == Algo::RoundRobin ==> arrivals_in_order(next@.arrivals_ts.values),
                algo == Algo::RoundRobin ==> forall|k: int|
                    0 <= k < before.len() ==> arrivals_in_order(
                        (#[trigger] before[k])@.arrivals_ts.values,
                    ),
                forall|k: int| at <= k < before.len() ==> preferred(algo, next@, (#[trigger] before[k])@),
            decreases at,
        {
            at = at - 1;
        }
        sorted.insert(at, next);
        proof {
            order = old_order.insert(at as int, n as int);
            let was = views_of(before);
            let now = views_of(sorted@);
            let shorter = views_of(taken);
            let longer = views_of(list@.subrange(0, n + 1));
            assert(sorted@ == before.insert(at as int, next));
            assert forall|i: int| 0 <= i < now.len() implies #[trigger] now[i] == (if i < at {
                was[i]
            } else if i == at {
                next@
            } else {
                was[i - 1]
            }) by {}
            assert forall|i: int| 0 <= i < order.len() implies 0 <= #[trigger] order[i]
                < longer.len() && now[i] == longer[order[i]] by {
                if i < at {
                    assert(order[i] == old_order[i]);
                    assert(shorter[old_order[i]] == longer[old_order[i]]);
                } else if i > at {
                    assert(order[i] == old_order[i - 1]);
                    assert(shorter[old_order[i - 1]] == longer[old_order[i - 1]]);
                }
            }
            assert forall|i: int, j: int| 0 <= i < j < order.len() implies #[trigger] order[i]
                != #[trigger] order[j] by {
                let oi = if i < at { i } else { i - 1 };
                let oj = if j < at { j } else { j - 1 };
                if i != at && j != at {
                    assert(order[i] == old_order[oi]);
                    assert(order[j] == old_order[oj]);
                } else if i == at {
                    assert(order[j] == old_order[oj]);
                } else {
                    assert(order[i] == old_order[oi]);
                }
            }
            assert forall|i: int, j: int| 0 <= i < j < now.len() implies !preferred(
                algo,
                #[trigger] now[j],
                #[trigger] now[i],
            ) by {
                if j == at {
                    if i < at - 1 {
                        assert(!preferred(algo, was[at - 1], was[i]));
                    }
                    assert(before[at - 1]@ == was[at - 1]);
                    assert(before[i]@ == was[i]);
                    lemma_preferred_transitive(algo, next@, was[at - 1], was[i]);
                } else if i == at {
                    assert(before[j - 1]@ == was[j - 1]);
                    assert(preferred(algo, next@, was[j - 1]));
                    lemma_preferred_asymmetric(algo, next@, was[j - 1]);
                } else {
                    let oi = if i < at { i } else { i - 1 };
                    let oj = if j < at { j } else { j - 1 };
                    assert(now[i] == was[oi]);
                    assert(now[j] == was[oj]);
                }
            }
            assert forall|i: int, j: int|
                0 <= i < j < now.len() && !preferred(
                    algo,
                    #[trigger] now[i],
                    #[trigger] now[j],
                ) implies order[i] < order[j] by {
                if j == at {
                    assert(order[i] == old_order[i]);
                } else if i == at {
                    assert(before[j - 1]@ == was[j - 1]);
                    assert(preferred(algo, next@, was[j - 1]));
                } else {
                    let oi = if i < at { i } else { i - 1 };
                    let oj = if j < at { j } else { j - 1 };
                    assert(now[i] == was[oi]);
                    assert(now[j] == was[oj]);
                    assert(order[i] == old_order[oi]);
                    assert(order[j] == old_order[oj]);
                }
            }
        }
        n = n + 1;
    }
    assert(list@.subrange(0, n as int) =~= list@);
    sorted
}

/// Orders backends for `MinLatency`: the highest block first, at equal
/// blocks the local before the external, and then the one whose last block
/// arrived earliest.
pub fn min_latency_sort<'a>(filtered_rpc_list: Vec<&'a Rpc>) -> (sorted: Vec<&'a Rpc>)
    ensures
        selected(Algo::MinLatency, views_of(filtered_rpc_list@), views_of(sorted@)),
{
    stable_sort(Algo::MinLatency, filtered_rpc_list)
}

/// Orders backends for `RoundRobin`: the highest block first, at equal
/// blocks the local before the external, and then the one with the lowest
/// rate of arrivals.
pub fn round_robin_sort<'a>(filtered_rpc_list: Vec<&'a Rpc>) -> (sorted: Vec<&'a Rpc>)
    requires
        sortable(Algo::RoundRobin, views_of(filtered_rpc_list@)),
    ensures
        selected(Algo::RoundRobin, views_of(filtered_rpc_list@), views_of(sorted@)),
{
    stable_sort(Algo::RoundRobin, filtered_rpc_list)
}

/// Orders backends by the algorithm; `Broadcast` orders as `MinLatency`
/// does.
pub fn sort_rpc_list_by_algo<'a>(algo: Algo, filtered_rpc_list: Vec<&'a Rpc>) -> (sorted: Vec<
    &'a Rpc,
>)
    requires
        sortable(algo, views_of(filtered_rpc_list@)),
    ensures
        selected(effective(algo), views_of(filtered_rpc_list@), views_of(sorted@)),
{
    match algo {
        Algo::MinLatency => min_latency_sort(filtered_rpc_list),
        Algo::RoundRobin => round_robin_sort(filtered_rpc_list),
        _ => min_latency_sort(filtered_rpc_list),
    }
}

} // verus!
