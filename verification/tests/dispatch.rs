use proto_balancer::rpc::errors::{ApplicationError, ErrorCode};
use proto_balancer::rpc::functions::{
    add_rpc, broadcast_end, broadcast_response, forward_raw_transaction, forward_rpc_request,
    forward_rpc_response, forward_rpc_response_at, AddRpcOutcome, BroadcastStep, Step,
};
use proto_balancer::rpc::pool::RpcPool;
use proto_balancer::rpc::types::{AddRpcRequest, Rpc, RpcLocation};
use proto_balancer::sort::types::Algo;

fn backend(url: &str, chain_id: usize, location: RpcLocation, block: u64) -> Rpc {
    let mut rpc = Rpc::new(url.to_string(), format!("ws-{}", url), chain_id, location, 4);
    rpc.last_block = block;
    rpc
}

fn pool_of(list: Vec<Rpc>) -> RpcPool {
    let mut pool = RpcPool::new();
    for rpc in list {
        pool.append(rpc);
    }
    pool
}

fn sent_to(step: &Step) -> String {
    match step {
        Step::Send { url } => url.clone(),
        Step::Reply { body } => panic!("replied {}", body),
    }
}

fn replied(step: &Step) -> String {
    match step {
        Step::Reply { body } => body.clone(),
        Step::Send { url } => panic!("sent to {}", url),
    }
}

fn failed() -> Result<String, ApplicationError> {
    Err(ApplicationError::new(ErrorCode::UnknownError, "no answer".to_string()))
}

fn no_window_touched(pool: &RpcPool) -> bool {
    pool.rpcs.iter().all(|rpc| {
        rpc.intra_latencies.len() == 0 && rpc.srv_latencies.len() == 0 && rpc.arrivals_ts.len() == 0
    })
}

#[test]
fn dispatch_tries_the_local_backend_first() {
    let pool = pool_of(vec![
        backend("A", 10, RpcLocation::Local, 100),
        backend("B", 10, RpcLocation::External, 100),
    ]);
    let (state, step) = forward_rpc_request(&pool, 10, Algo::MinLatency);
    assert_eq!(sent_to(&step), "A");
    assert_eq!(state.next, 0);
    assert_eq!(state.candidates.len(), 2);
    assert_eq!(state.candidates[0].url, "A");
    assert_eq!(state.candidates[1].url, "B");
    let swapped = pool_of(vec![
        backend("B", 10, RpcLocation::External, 100),
        backend("A", 10, RpcLocation::Local, 100),
    ]);
    assert_eq!(sent_to(&forward_rpc_request(&swapped, 10, Algo::MinLatency).1), "A");
}

#[test]
fn dispatch_tries_the_freshest_backend_first() {
    let pool = pool_of(vec![
        backend("A", 10, RpcLocation::Local, 99),
        backend("B", 10, RpcLocation::Local, 100),
    ]);
    let (state, step) = forward_rpc_request(&pool, 10, Algo::MinLatency);
    assert_eq!(sent_to(&step), "B");
    assert_eq!(state.candidates[1].url, "A");
}

#[test]
fn dispatch_asks_for_a_chain_in_the_path() {
    let pool = pool_of(vec![backend("A", 0, RpcLocation::Local, 1), backend("B", 10, RpcLocation::Local, 1)]);
    let (state, step) = forward_rpc_request(&pool, 0, Algo::MinLatency);
    assert_eq!(
        replied(&step),
        "{\"id\":null,\"jsonrpc\":\"2.0\",\"error\":\"400: chain_id path required (i.e. https://127.0.0.1:3000/10)\"}"
    );
    assert_eq!(state.candidates.len(), 0);
}

#[test]
fn dispatch_finds_no_backend_for_an_unknown_chain() {
    let pool = pool_of(vec![backend("A", 10, RpcLocation::Local, 1)]);
    let (state, step) = forward_rpc_request(&pool, 42, Algo::MinLatency);
    assert_eq!(
        replied(&step),
        "{\"id\":null,\"jsonrpc\":\"2.0\",\"error\":\"404: No RPC nodes found for the specified chain ID\"}"
    );
    assert_eq!(state.candidates.len(), 0);
    let empty = RpcPool::new();
    assert_eq!(
        replied(&forward_rpc_request(&empty, 42, Algo::RoundRobin).1),
        "{\"id\":null,\"jsonrpc\":\"2.0\",\"error\":\"404: No RPC nodes found for the specified chain ID\"}"
    );
}

#[test]
fn dispatch_answers_without_looking_at_other_chains() {
    let mut pool = pool_of(vec![
        backend("A", 0, RpcLocation::Local, 1),
        backend("B", 10, RpcLocation::Local, 1),
        backend("C", 11, RpcLocation::Local, 1),
    ]);
    for index in 0..2 {
        pool.rpcs[index].arrivals_ts.push(500);
        pool.rpcs[index].arrivals_ts.push(100);
    }
    assert_eq!(
        replied(&forward_rpc_request(&pool, 0, Algo::RoundRobin).1),
        "{\"id\":null,\"jsonrpc\":\"2.0\",\"error\":\"400: chain_id path required (i.e. https://127.0.0.1:3000/10)\"}"
    );
    assert_eq!(
        replied(&forward_rpc_request(&pool, 42, Algo::RoundRobin).1),
        "{\"id\":null,\"jsonrpc\":\"2.0\",\"error\":\"404: No RPC nodes found for the specified chain ID\"}"
    );
    assert!(pool.is_sortable_for(11, Algo::RoundRobin));
    assert_eq!(sent_to(&forward_rpc_request(&pool, 11, Algo::RoundRobin).1), "C");
    assert!(!pool.is_sortable_for(10, Algo::RoundRobin));
    assert_eq!(sent_to(&forward_rpc_request(&pool, 10, Algo::MinLatency).1), "B");
}

#[test]
fn dispatch_leaves_out_other_chains() {
    let pool = pool_of(vec![
        backend("A", 11, RpcLocation::Local, 500),
        backend("B", 10, RpcLocation::External, 1),
        backend("C", 10, RpcLocation::Local, 1),
    ]);
    let (state, step) = forward_rpc_request(&pool, 10, Algo::Broadcast);
    assert_eq!(sent_to(&step), "C");
    assert_eq!(state.candidates.len(), 2);
}

#[test]
fn an_answer_is_returned_and_recorded() {
    let mut pool = pool_of(vec![
        backend("A", 10, RpcLocation::Local, 100),
        backend("B", 10, RpcLocation::External, 100),
    ]);
    let (mut state, _) = forward_rpc_request(&pool, 10, Algo::MinLatency);
    let step = forward_rpc_response_at(&mut state, &mut pool, Ok("{\"result\":\"0x1\"}".to_string()), 5, 12, 1_000);
    assert_eq!(replied(&step), "{\"result\":\"0x1\"}");
    assert_eq!(state.next, 0);
    assert_eq!(pool.rpcs[0].intra_latencies.front(), Some(5));
    assert_eq!(pool.rpcs[0].srv_latencies.front(), Some(7));
    assert_eq!(pool.rpcs[0].arrivals_ts.front(), Some(1_000));
    assert_eq!(pool.rpcs[1].intra_latencies.len(), 0);
    assert_eq!(pool.rpcs[1].srv_latencies.len(), 0);
    assert_eq!(pool.rpcs[1].arrivals_ts.len(), 0);
    assert!(pool.has_distinct_urls());
}

#[test]
fn the_body_of_a_failure_is_an_answer_too() {
    let mut pool = pool_of(vec![backend("A", 10, RpcLocation::Local, 100)]);
    let (mut state, _) = forward_rpc_request(&pool, 10, Algo::MinLatency);
    let envelope = "{\"id\":null,\"jsonrpc\":\"2.0\",\"error\":\"500: Internal server error\"}";
    let step = forward_rpc_response_at(&mut state, &mut pool, Ok(envelope.to_string()), 1, 2, 3);
    assert_eq!(replied(&step), envelope);
    assert_eq!(pool.rpcs[0].srv_latencies.front(), Some(1));
}

#[test]
fn later_answers_come_to_the_front() {
    let mut pool = pool_of(vec![backend("A", 10, RpcLocation::Local, 100)]);
    for round in 1..=6u64 {
        let (mut state, _) = forward_rpc_request(&pool, 10, Algo::RoundRobin);
        forward_rpc_response_at(&mut state, &mut pool, Ok(String::new()), round, round * 3, round * 100);
        assert_eq!(pool.rpcs[0].intra_latencies.front(), Some(round));
        assert_eq!(pool.rpcs[0].srv_latencies.front(), Some(round * 2));
        assert_eq!(pool.rpcs[0].arrivals_ts.front(), Some(round * 100));
        assert!(pool.rpcs[0].intra_latencies.len() <= 4);
        assert!(pool.rpcs[0].srv_latencies.len() <= 4);
        assert!(pool.rpcs[0].arrivals_ts.len() <= 4);
    }
    assert_eq!(pool.rpcs[0].arrivals_ts.samples(), vec![600, 500, 400, 300]);
}

#[test]
fn without_an_answer_the_next_backend_is_tried() {
    let mut pool = pool_of(vec![
        backend("A", 10, RpcLocation::Local, 100),
        backend("B", 10, RpcLocation::External, 100),
    ]);
    let (mut state, first) = forward_rpc_request(&pool, 10, Algo::MinLatency);
    assert_eq!(sent_to(&first), "A");
    let second = forward_rpc_response_at(&mut state, &mut pool, failed(), 1, 2, 3);
    assert_eq!(sent_to(&second), "B");
    assert_eq!(state.next, 1);
    assert!(no_window_touched(&pool));
    let third = forward_rpc_response_at(&mut state, &mut pool, Ok("late".to_string()), 10, 30, 40);
    assert_eq!(replied(&third), "late");
    assert_eq!(pool.rpcs[1].intra_latencies.front(), Some(10));
    assert_eq!(pool.rpcs[1].srv_latencies.front(), Some(20));
    assert_eq!(pool.rpcs[0].intra_latencies.len(), 0);
}

#[test]
fn without_any_answer_the_client_is_told() {
    let mut pool = pool_of(vec![
        backend("A", 10, RpcLocation::Local, 100),
        backend("B", 10, RpcLocation::External, 100),
    ]);
    let (mut state, _) = forward_rpc_request(&pool, 10, Algo::MinLatency);
    forward_rpc_response_at(&mut state, &mut pool, failed(), 1, 2, 3);
    let last = forward_rpc_response_at(&mut state, &mut pool, failed(), 1, 2, 3);
    assert_eq!(
        replied(&last),
        "{\"id\":null,\"jsonrpc\":\"2.0\",\"error\":\"500: No RPC nodes responded successfully\"}"
    );
    assert_eq!(state.next, 2);
    assert!(no_window_touched(&pool));
}

#[test]
fn the_time_of_an_answer_is_read_from_the_clock() {
    let mut pool = pool_of(vec![backend("A", 10, RpcLocation::Local, 100)]);
    let (mut state, _) = forward_rpc_request(&pool, 10, Algo::MinLatency);
    let step = forward_rpc_response(&mut state, &mut pool, Ok("ok".to_string()), 2, 9);
    assert_eq!(replied(&step), "ok");
    assert_eq!(pool.rpcs[0].intra_latencies.front(), Some(2));
    assert_eq!(pool.rpcs[0].srv_latencies.front(), Some(7));
    assert!(pool.rpcs[0].arrivals_ts.front().unwrap() > 1_600_000_000_000);
}

#[test]
fn broadcast_returns_the_first_result() {
    let pool = pool_of(vec![
        backend("A", 10, RpcLocation::Local, 100),
        backend("B", 10, RpcLocation::External, 100),
        backend("C", 11, RpcLocation::Local, 100),
    ]);
    let (mut state, urls) = forward_raw_transaction(&pool, 10);
    assert_eq!(urls, vec!["A", "B"]);
    assert_eq!(state.results.len(), 0);
    let body = "{\"result\":\"0xhash\",\"id\":1,\"jsonrpc\":\"2.0\"}";
    match broadcast_response(&mut state, Ok(body.to_string())) {
        BroadcastStep::Reply { body: reply } => assert_eq!(reply, body),
        other => panic!("{:?}", other),
    }
    assert_eq!(state.results, vec![body]);
    assert!(no_window_touched(&pool));
}

#[test]
fn broadcast_waits_for_a_result_that_is_not_null() {
    let pool = pool_of(vec![backend("A", 10, RpcLocation::Local, 1), backend("B", 10, RpcLocation::Local, 1)]);
    let (mut state, _) = forward_raw_transaction(&pool, 10);
    let refused = "{\"error\":{\"code\":-32000,\"message\":\"nonce too low\"},\"id\":1}";
    let null = "{\"result\":null,\"id\":1}";
    let list = "[1,2]";
    assert!(matches!(broadcast_response(&mut state, Ok(refused.to_string())), BroadcastStep::Wait));
    assert!(matches!(broadcast_response(&mut state, Ok(null.to_string())), BroadcastStep::Wait));
    assert!(matches!(broadcast_response(&mut state, Ok(list.to_string())), BroadcastStep::Wait));
    let zero = "{\"result\":0}";
    match broadcast_response(&mut state, Ok(zero.to_string())) {
        BroadcastStep::Reply { body } => assert_eq!(body, zero),
        other => panic!("{:?}", other),
    }
    assert_eq!(state.results, vec![refused, null, list, zero]);
}

#[test]
fn broadcast_without_a_result_returns_what_came_first() {
    let pool = pool_of(vec![backend("A", 10, RpcLocation::Local, 1), backend("B", 10, RpcLocation::Local, 1)]);
    let (mut state, _) = forward_raw_transaction(&pool, 10);
    let first = "{\"error\":\"second backend was quicker\"}";
    let second = "{\"error\":\"first backend was slower\"}";
    assert!(matches!(broadcast_response(&mut state, Ok(first.to_string())), BroadcastStep::Wait));
    assert!(matches!(broadcast_response(&mut state, Ok(second.to_string())), BroadcastStep::Wait));
    assert_eq!(broadcast_end(&state), first);
}

#[test]
fn broadcast_of_failed_tasks_returns_the_first_failure() {
    let pool = pool_of(vec![backend("A", 10, RpcLocation::Local, 1), backend("B", 10, RpcLocation::Local, 1)]);
    let (mut state, _) = forward_raw_transaction(&pool, 10);
    assert!(matches!(broadcast_response(&mut state, Err("task 1 panicked".to_string())), BroadcastStep::Wait));
    assert!(matches!(broadcast_response(&mut state, Err("task 2 panicked".to_string())), BroadcastStep::Wait));
    assert_eq!(
        broadcast_end(&state),
        "{\"id\":null,\"jsonrpc\":\"2.0\",\"error\":\"500: task 1 panicked\"}"
    );
    assert_eq!(state.results.len(), 2);
}

#[test]
fn broadcast_reports_a_body_that_is_no_json() {
    let pool = pool_of(vec![backend("A", 10, RpcLocation::Local, 1)]);
    let (mut state, _) = forward_raw_transaction(&pool, 10);
    assert!(matches!(broadcast_response(&mut state, Ok("<html>".to_string())), BroadcastStep::Malformed));
    assert_eq!(state.results, vec!["<html>"]);
}

#[test]
fn broadcast_takes_chain_zero_as_a_chain() {
    let pool = pool_of(vec![backend("A", 0, RpcLocation::Local, 1), backend("B", 10, RpcLocation::Local, 1)]);
    assert_eq!(forward_raw_transaction(&pool, 0).1, vec!["A"]);
    assert_eq!(forward_raw_transaction(&pool, 7).1, Vec::<String>::new());
}

fn request(url: &str, location: &str) -> AddRpcRequest {
    AddRpcRequest {
        url: url.to_string(),
        ws_url: format!("ws-{}", url),
        chain_id: 10,
        rpc_location: location.to_string(),
    }
}

#[test]
fn a_backend_is_added_once() {
    let mut pool = RpcPool::new();
    match add_rpc(&mut pool, request("A", "local"), 7) {
        AddRpcOutcome::Added { index, ws_url, response } => {
            assert_eq!(index, 0);
            assert_eq!(ws_url, "ws-A");
            assert_eq!(response, "{\"id\":1,\"jsonrpc\":\"2.0\",\"result\":\"Rpc added successfully\"}");
        }
        other => panic!("{:?}", other),
    }
    assert_eq!(pool.len(), 1);
    assert_eq!(pool.rpcs[0].url, "A");
    assert_eq!(pool.rpcs[0].ws_url, "ws-A");
    assert_eq!(pool.rpcs[0].chain_id, 10);
    assert_eq!(pool.rpcs[0].rpc_location, RpcLocation::Local);
    assert_eq!(pool.rpcs[0].last_block, 0);
    assert_eq!(pool.rpcs[0].intra_latencies.limit, 7);
    assert_eq!(pool.rpcs[0].arrivals_ts.len(), 0);
    pool.update_tip(0, 9, 9, 9);
    for _ in 0..3 {
        match add_rpc(&mut pool, request("A", "External"), 99) {
            AddRpcOutcome::AlreadyAdded { response } => {
                assert_eq!(response, "{\"id\":1,\"jsonrpc\":\"2.0\",\"result\":\"Rpc already added\"}");
            }
            other => panic!("{:?}", other),
        }
        assert_eq!(pool.len(), 1);
        assert_eq!(pool.rpcs[0].rpc_location, RpcLocation::Local);
        assert_eq!(pool.rpcs[0].last_block, 9);
        assert_eq!(pool.rpcs[0].intra_latencies.limit, 7);
    }
    match add_rpc(&mut pool, request("B", "EXTERNAL"), 7) {
        AddRpcOutcome::Added { index, .. } => assert_eq!(index, 1),
        other => panic!("{:?}", other),
    }
    assert_eq!(pool.rpcs[1].rpc_location, RpcLocation::External);
    assert!(pool.has_distinct_urls());
}

#[test]
fn a_backend_without_a_locality_is_not_added() {
    let mut pool = RpcPool::new();
    assert!(matches!(add_rpc(&mut pool, request("A", "somewhere"), 7), AddRpcOutcome::InvalidLocation));
    assert_eq!(pool.len(), 0);
    add_rpc(&mut pool, request("A", "local"), 7);
    assert!(matches!(
        add_rpc(&mut pool, request("A", "somewhere"), 7),
        AddRpcOutcome::AlreadyAdded { .. }
    ));
}
