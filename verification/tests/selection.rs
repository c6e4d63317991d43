use proto_balancer::rpc::types::{LimitedVecDeque, Rpc, RpcLocation};
use proto_balancer::sort::functions::{
    compare_rpc_location, min_latency_sort, prefers, round_robin_sort, sort_rpc_list_by_algo,
};
use proto_balancer::sort::rate::{is_rate_below, rpc_requests_per_minute, RequestRate};
use proto_balancer::sort::types::Algo;
use std::cmp::Ordering;
use std::str::FromStr;

fn backend(url: &str, location: RpcLocation, block: u64, current_ts: u64) -> Rpc {
    let mut rpc = Rpc::new(url.to_string(), String::new(), 10, location, 10);
    rpc.last_block = block;
    rpc.current_ts = current_ts;
    rpc
}

fn with_arrivals(mut rpc: Rpc, oldest_first: &[u64]) -> Rpc {
    for t in oldest_first {
        rpc.arrivals_ts.push(*t);
    }
    rpc
}

fn urls(list: &Vec<&Rpc>) -> Vec<String> {
    list.iter().map(|rpc| rpc.url.clone()).collect()
}

fn per_minute(rate: RequestRate) -> f64 {
    if rate.requests == 0 {
        0.0
    } else {
        rate.requests as f64 / (rate.span_ms as f64 / 60000.0)
    }
}

#[test]
fn algorithms_are_read_without_regard_to_case() {
    assert_eq!(Algo::parse("min_latency"), Some(Algo::MinLatency));
    assert_eq!(Algo::parse("ROUND_ROBIN"), Some(Algo::RoundRobin));
    assert_eq!(Algo::parse("Broadcast"), Some(Algo::Broadcast));
    assert_eq!(Algo::parse("fastest"), None);
    assert_eq!(Algo::parse("min-latency"), None);
    assert_eq!(Algo::from_str("Min_Latency"), Ok(Algo::MinLatency));
    assert_eq!(Algo::from_str(""), Err(()));
    assert_eq!(Algo::default(), Algo::MinLatency);
}

#[test]
fn local_compares_below_external() {
    assert_eq!(compare_rpc_location(&RpcLocation::Local, &RpcLocation::External), Ordering::Less);
    assert_eq!(compare_rpc_location(&RpcLocation::External, &RpcLocation::Local), Ordering::Greater);
    assert_eq!(compare_rpc_location(&RpcLocation::Local, &RpcLocation::Local), Ordering::Equal);
    assert_eq!(compare_rpc_location(&RpcLocation::External, &RpcLocation::External), Ordering::Equal);
}

#[test]
fn rate_is_zero_below_two_arrivals() {
    let empty = LimitedVecDeque::new(5);
    assert_eq!(rpc_requests_per_minute(&empty), RequestRate { requests: 0, span_ms: 1 });
    assert_eq!(per_minute(rpc_requests_per_minute(&empty)), 0.0);
    let mut one = LimitedVecDeque::new(5);
    one.push(1_000);
    assert_eq!(per_minute(rpc_requests_per_minute(&one)), 0.0);
    assert!(!is_rate_below(&rpc_requests_per_minute(&empty), &rpc_requests_per_minute(&one)));
    assert!(!is_rate_below(&rpc_requests_per_minute(&one), &rpc_requests_per_minute(&empty)));
}

#[test]
fn rate_is_the_count_over_the_span() {
    let mut window = LimitedVecDeque::new(5);
    window.push(0);
    window.push(60_000);
    window.push(120_000);
    let rate = rpc_requests_per_minute(&window);
    assert_eq!(rate, RequestRate { requests: 3, span_ms: 120_000 });
    assert_eq!(per_minute(rate), 1.5);
    let mut busy = LimitedVecDeque::new(5);
    busy.push(1_000);
    busy.push(2_000);
    assert_eq!(per_minute(rpc_requests_per_minute(&busy)), 120.0);
    assert!(is_rate_below(&rate, &rpc_requests_per_minute(&busy)));
    assert!(!is_rate_below(&rpc_requests_per_minute(&busy), &rate));
}

#[test]
fn rate_over_no_time_is_above_every_other() {
    let mut burst = LimitedVecDeque::new(5);
    burst.push(7);
    burst.push(7);
    let unbounded = rpc_requests_per_minute(&burst);
    assert_eq!(unbounded, RequestRate { requests: 2, span_ms: 0 });
    assert!(per_minute(unbounded).is_infinite());
    let finite = RequestRate { requests: 1_000_000, span_ms: 1 };
    assert!(is_rate_below(&finite, &unbounded));
    assert!(!is_rate_below(&unbounded, &finite));
    assert!(!is_rate_below(&unbounded, &unbounded));
    let none = RequestRate { requests: 0, span_ms: 1 };
    assert!(is_rate_below(&none, &unbounded));
}

#[test]
fn rates_of_large_numbers_compare_exactly() {
    let a = RequestRate { requests: u64::MAX, span_ms: u64::MAX - 1 };
    let b = RequestRate { requests: u64::MAX - 1, span_ms: u64::MAX };
    assert!(is_rate_below(&b, &a));
    assert!(!is_rate_below(&a, &b));
}

#[test]
fn local_is_tried_first_at_the_same_block() {
    let a = backend("A", RpcLocation::Local, 100, 50);
    let b = backend("B", RpcLocation::External, 100, 10);
    assert_eq!(urls(&min_latency_sort(vec![&b, &a])), vec!["A", "B"]);
    assert_eq!(urls(&min_latency_sort(vec![&a, &b])), vec!["A", "B"]);
}

#[test]
fn freshest_tip_wins_over_locality() {
    let a = backend("A", RpcLocation::Local, 99, 1);
    let b = backend("B", RpcLocation::External, 100, 9);
    assert_eq!(urls(&min_latency_sort(vec![&a, &b])), vec!["B", "A"]);
    let c = backend("C", RpcLocation::Local, 100, 9);
    assert_eq!(urls(&min_latency_sort(vec![&a, &c])), vec!["C", "A"]);
}

#[test]
fn earliest_arrival_wins_the_last_tie() {
    let a = backend("A", RpcLocation::Local, 100, 30);
    let b = backend("B", RpcLocation::Local, 100, 10);
    let c = backend("C", RpcLocation::Local, 100, 20);
    assert_eq!(urls(&min_latency_sort(vec![&a, &b, &c])), vec!["B", "C", "A"]);
}

#[test]
fn min_latency_orders_by_all_three_keys() {
    let a = backend("A", RpcLocation::External, 100, 5);
    let b = backend("B", RpcLocation::Local, 100, 9);
    let c = backend("C", RpcLocation::Local, 101, 99);
    let d = backend("D", RpcLocation::Local, 100, 7);
    let e = backend("E", RpcLocation::External, 101, 1);
    let f = backend("F", RpcLocation::External, 100, 4);
    assert_eq!(
        urls(&min_latency_sort(vec![&a, &b, &c, &d, &e, &f])),
        vec!["C", "E", "D", "B", "F", "A"]
    );
}

#[test]
fn ties_keep_the_order_of_the_input() {
    let a = backend("A", RpcLocation::Local, 100, 10);
    let b = backend("B", RpcLocation::Local, 100, 10);
    let c = backend("C", RpcLocation::Local, 100, 10);
    let first = backend("Z", RpcLocation::Local, 200, 10);
    assert_eq!(urls(&min_latency_sort(vec![&c, &a, &b])), vec!["C", "A", "B"]);
    assert_eq!(urls(&min_latency_sort(vec![&b, &first, &a, &c])), vec!["Z", "B", "A", "C"]);
    assert_eq!(urls(&round_robin_sort(vec![&c, &a, &b])), vec!["C", "A", "B"]);
}

#[test]
fn sorting_keeps_every_backend() {
    let empty: Vec<&Rpc> = Vec::new();
    assert_eq!(min_latency_sort(empty).len(), 0);
    let a = backend("A", RpcLocation::Local, 1, 1);
    assert_eq!(urls(&min_latency_sort(vec![&a])), vec!["A"]);
    assert_eq!(urls(&min_latency_sort(vec![&a, &a])), vec!["A", "A"]);
}

#[test]
fn round_robin_prefers_the_lower_rate() {
    let a = with_arrivals(backend("A", RpcLocation::Local, 100, 1), &[0, 30_000, 60_000]);
    let b = with_arrivals(backend("B", RpcLocation::Local, 100, 2), &[0, 60_000]);
    let c = with_arrivals(backend("C", RpcLocation::Local, 100, 3), &[5]);
    let d = with_arrivals(backend("D", RpcLocation::Local, 100, 4), &[9, 9]);
    assert_eq!(urls(&round_robin_sort(vec![&d, &a, &b, &c])), vec!["C", "B", "A", "D"]);
}

#[test]
fn round_robin_looks_at_block_and_locality_first() {
    let a = with_arrivals(backend("A", RpcLocation::External, 100, 1), &[]);
    let b = with_arrivals(backend("B", RpcLocation::Local, 100, 2), &[0, 1, 2, 3]);
    let c = with_arrivals(backend("C", RpcLocation::External, 101, 3), &[0, 1, 2, 3, 4]);
    assert_eq!(urls(&round_robin_sort(vec![&a, &b, &c])), vec!["C", "B", "A"]);
}

#[test]
fn round_robin_does_not_look_at_the_arrival_of_the_block() {
    let a = backend("A", RpcLocation::Local, 100, 30);
    let b = backend("B", RpcLocation::Local, 100, 10);
    assert_eq!(urls(&round_robin_sort(vec![&a, &b])), vec!["A", "B"]);
    assert_eq!(urls(&min_latency_sort(vec![&a, &b])), vec!["B", "A"]);
}

#[test]
fn broadcast_orders_as_min_latency_does() {
    let a = with_arrivals(backend("A", RpcLocation::Local, 100, 30), &[0, 60_000]);
    let b = with_arrivals(backend("B", RpcLocation::Local, 100, 10), &[0, 1, 2]);
    assert_eq!(urls(&sort_rpc_list_by_algo(Algo::Broadcast, vec![&a, &b])), vec!["B", "A"]);
    assert_eq!(urls(&sort_rpc_list_by_algo(Algo::MinLatency, vec![&a, &b])), vec!["B", "A"]);
    assert_eq!(urls(&sort_rpc_list_by_algo(Algo::RoundRobin, vec![&b, &a])), vec!["A", "B"]);
}

#[test]
fn preference_is_strict() {
    let a = backend("A", RpcLocation::Local, 100, 10);
    let b = backend("B", RpcLocation::Local, 100, 10);
    let c = backend("C", RpcLocation::Local, 100, 11);
    assert!(!prefers(Algo::MinLatency, &a, &b));
    assert!(!prefers(Algo::MinLatency, &b, &a));
    assert!(prefers(Algo::MinLatency, &a, &c));
    assert!(!prefers(Algo::MinLatency, &c, &a));
    assert!(!prefers(Algo::RoundRobin, &a, &c));
}
