use proto_balancer::rpc::errors::ErrorCode;
use proto_balancer::rpc::functions::{
    forward_json_rpc_request, incoming_to_value, parse_rpc_request, route_request, Route,
};
use proto_balancer::rpc::types::RpcRequest;

const INVALID: &str = "{\"id\":null,\"jsonrpc\":\"2.0\",\"error\":\"400: Invalid Json\"}";

fn shape(body: &str) -> Result<RpcRequest, String> {
    let value: serde_json::Value = serde_json::from_str(body).unwrap();
    parse_rpc_request(value).map_err(|error| error.format_error())
}

#[test]
fn a_body_that_is_no_json_is_refused() {
    match forward_json_rpc_request("/10", "{") {
        Route::Reply { body } => assert_eq!(body, INVALID),
        other => panic!("{:?}", other),
    }
    match forward_json_rpc_request("/10", "") {
        Route::Reply { body } => assert_eq!(body, INVALID),
        other => panic!("{:?}", other),
    }
    match incoming_to_value("{") {
        Err(response) => {
            assert_eq!(response.error.code, ErrorCode::BadRequest);
            assert_eq!(response.error.message, "Invalid Json");
            assert_eq!(response.to_json(), INVALID);
        }
        Ok(value) => panic!("{}", value),
    }
}

#[test]
fn a_body_is_read_as_json() {
    let value = incoming_to_value(" {\"a\" : [1, \"b\", null]} ").unwrap();
    assert_eq!(value["a"][0].as_u64(), Some(1));
    assert_eq!(value["a"][1].as_str(), Some("b"));
    assert!(value["a"][2].is_null());
}

#[test]
fn a_call_has_version_method_params_and_id() {
    let body = "{\"jsonrpc\":\"2.0\",\"method\":\"eth_blockNumber\",\"params\":[\"0x1\",{\"a\":true},7],\"id\":83}";
    match shape(body) {
        Ok(RpcRequest::JsonRpc(call)) => {
            assert_eq!(call.jsonrpc, "2.0");
            assert_eq!(call.method, "eth_blockNumber");
            assert_eq!(call.params, vec!["\"0x1\"", "{\"a\":true}", "7"]);
            assert_eq!(call.id, "83");
        }
        other => panic!("{:?}", other),
    }
    match shape("{\"id\":null,\"params\":[],\"method\":\"m\",\"jsonrpc\":\"1\",\"extra\":1}") {
        Ok(RpcRequest::JsonRpc(call)) => {
            assert_eq!(call.id, "null");
            assert_eq!(call.params.len(), 0);
        }
        other => panic!("{:?}", other),
    }
}

#[test]
fn a_call_needs_each_member() {
    let refused = [
        "{\"method\":\"m\",\"params\":[],\"id\":1}",
        "{\"jsonrpc\":\"2.0\",\"params\":[],\"id\":1}",
        "{\"jsonrpc\":\"2.0\",\"method\":\"m\",\"id\":1}",
        "{\"jsonrpc\":\"2.0\",\"method\":\"m\",\"params\":[]}",
        "{\"jsonrpc\":2,\"method\":\"m\",\"params\":[],\"id\":1}",
        "{\"jsonrpc\":\"2.0\",\"method\":null,\"params\":[],\"id\":1}",
        "{\"jsonrpc\":\"2.0\",\"method\":\"m\",\"params\":{},\"id\":1}",
        "\"text\"",
        "12",
        "null",
        "{}",
        "[1]",
        "[{\"jsonrpc\":\"2.0\",\"method\":\"m\",\"params\":[],\"id\":1},{}]",
    ];
    for body in refused {
        assert_eq!(shape(body).unwrap_err(), "400: Invalid Json", "{}", body);
    }
}

#[test]
fn a_batch_is_an_array_of_calls() {
    let body = "[{\"jsonrpc\":\"2.0\",\"method\":\"a\",\"params\":[],\"id\":1},{\"jsonrpc\":\"2.0\",\"method\":\"b\",\"params\":[1],\"id\":\"x\"}]";
    match shape(body) {
        Ok(RpcRequest::JsonRpcArray(calls)) => {
            assert_eq!(calls.len(), 2);
            assert_eq!(calls[0].method, "a");
            assert_eq!(calls[1].method, "b");
            assert_eq!(calls[1].params, vec!["1"]);
            assert_eq!(calls[1].id, "\"x\"");
        }
        other => panic!("{:?}", other),
    }
    match shape("[]") {
        Ok(RpcRequest::JsonRpcArray(calls)) => assert_eq!(calls.len(), 0),
        other => panic!("{:?}", other),
    }
}

#[test]
fn a_request_to_add_has_urls_chain_and_locality() {
    let body = "{\"url\":\"http://a\",\"ws_url\":\"ws://a\",\"chain_id\":10,\"rpc_location\":\"local\"}";
    match shape(body) {
        Ok(RpcRequest::AddRpc(add)) => {
            assert_eq!(add.url, "http://a");
            assert_eq!(add.ws_url, "ws://a");
            assert_eq!(add.chain_id, 10);
            assert_eq!(add.rpc_location, "local");
        }
        other => panic!("{:?}", other),
    }
    let refused = [
        "{\"ws_url\":\"ws://a\",\"chain_id\":10,\"rpc_location\":\"local\"}",
        "{\"url\":\"http://a\",\"ws_url\":\"ws://a\",\"chain_id\":-1,\"rpc_location\":\"local\"}",
        "{\"url\":\"http://a\",\"ws_url\":\"ws://a\",\"chain_id\":1.5,\"rpc_location\":\"local\"}",
        "{\"url\":\"http://a\",\"ws_url\":\"ws://a\",\"chain_id\":\"10\",\"rpc_location\":\"local\"}",
        "{\"url\":\"http://a\",\"ws_url\":\"ws://a\",\"chain_id\":10,\"rpc_location\":1}",
        "{\"url\":\"http://a\",\"ws_url\":\"ws://a\",\"chain_id\":10}",
    ];
    for body in refused {
        assert_eq!(shape(body).unwrap_err(), "400: Invalid Json", "{}", body);
    }
}

#[test]
fn a_batch_of_requests_to_add_is_an_array_of_them() {
    let body = "[{\"url\":\"http://a\",\"ws_url\":\"ws://a\",\"chain_id\":10,\"rpc_location\":\"local\"},{\"url\":\"http://b\",\"ws_url\":\"ws://b\",\"chain_id\":18446744073709551615,\"rpc_location\":\"anything\"}]";
    match shape(body) {
        Ok(RpcRequest::AddRpcArray(adds)) => {
            assert_eq!(adds.len(), 2);
            assert_eq!(adds[0].url, "http://a");
            assert_eq!(adds[1].chain_id, usize::MAX);
            assert_eq!(adds[1].rpc_location, "anything");
        }
        other => panic!("{:?}", other),
    }
}

#[test]
fn a_call_with_the_members_of_an_add_is_a_call() {
    let body = "{\"jsonrpc\":\"2.0\",\"method\":\"m\",\"params\":[],\"id\":1,\"url\":\"u\",\"ws_url\":\"w\",\"chain_id\":1,\"rpc_location\":\"local\"}";
    assert!(matches!(shape(body), Ok(RpcRequest::JsonRpc(_))));
}

#[test]
fn a_raw_transaction_is_broadcast() {
    let body = "{ \"jsonrpc\": \"2.0\", \"method\": \"eth_sendRawTransaction\", \"params\": [\"0xabc\"], \"id\": 1 }";
    match forward_json_rpc_request("/10", body) {
        Route::Broadcast { chain_id, body } => {
            assert_eq!(chain_id, 10);
            let sent: serde_json::Value = serde_json::from_str(&body).unwrap();
            let given: serde_json::Value = serde_json::from_str(
                "{\"jsonrpc\":\"2.0\",\"method\":\"eth_sendRawTransaction\",\"params\":[\"0xabc\"],\"id\":1}",
            )
            .unwrap();
            assert_eq!(sent, given);
            assert!(!body.contains(' '));
        }
        other => panic!("{:?}", other),
    }
    match forward_json_rpc_request("/", body) {
        Route::Broadcast { chain_id, .. } => assert_eq!(chain_id, 0),
        other => panic!("{:?}", other),
    }
}

#[test]
fn any_other_call_is_forwarded() {
    let body = "{\"id\":1,\"jsonrpc\":\"2.0\",\"method\":\"eth_blockNumber\",\"params\":[]}";
    match forward_json_rpc_request("/rpc/8453", body) {
        Route::Forward { chain_id, body: sent } => {
            assert_eq!(chain_id, 8453);
            assert_eq!(sent, body);
        }
        other => panic!("{:?}", other),
    }
    match forward_json_rpc_request("/", body) {
        Route::Forward { chain_id, .. } => assert_eq!(chain_id, 0),
        other => panic!("{:?}", other),
    }
    let batch = "[{\"id\":1,\"jsonrpc\":\"2.0\",\"method\":\"eth_sendRawTransaction\",\"params\":[]}]";
    match forward_json_rpc_request("/10", batch) {
        Route::Forward { chain_id, body: sent } => {
            assert_eq!(chain_id, 10);
            assert_eq!(sent, batch);
        }
        other => panic!("{:?}", other),
    }
}

#[test]
fn requests_to_add_are_routed_to_the_pool() {
    let one = "{\"url\":\"http://a\",\"ws_url\":\"ws://a\",\"chain_id\":10,\"rpc_location\":\"local\"}";
    match forward_json_rpc_request("/whatever", one) {
        Route::Add { request } => assert_eq!(request.url, "http://a"),
        other => panic!("{:?}", other),
    }
    let many = format!("[{},{}]", one, one);
    match forward_json_rpc_request("/10", &many) {
        Route::AddBatch { requests } => {
            assert_eq!(requests.len(), 2);
            assert_eq!(requests[1].ws_url, "ws://a");
        }
        other => panic!("{:?}", other),
    }
}

#[test]
fn json_of_no_known_shape_is_refused() {
    match forward_json_rpc_request("/10", "{\"hello\":\"world\"}") {
        Route::Reply { body } => assert_eq!(body, INVALID),
        other => panic!("{:?}", other),
    }
    let value: serde_json::Value = serde_json::from_str("[[]]").unwrap();
    match route_request("/10", value) {
        Route::Reply { body } => assert_eq!(body, INVALID),
        other => panic!("{:?}", other),
    }
}
