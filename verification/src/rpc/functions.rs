//! The request classifier and the decisions of the dispatcher: where a
//! request goes, which backends are tried and in what order, and what the
//! client is told.

use crate::clock::wall_clock_ms;
use crate::json::{
    is_null, items_in, json_is_null, json_items, json_member, json_parsed, json_rendered,
    json_str, json_u64, member, number_in, parse, rendered, text_in,
};
use crate::json::unescaped;
use crate::rpc::errors::{
    envelope, error_text, lemma_same_upto, lemma_unescaped_upto, plain_envelope, same_upto,
    unescaped_upto, ApplicationError, ErrorCode, JsonRpcErrorResponse,
};
use crate::text::decimal_digits;
use crate::rpc::pool::{
    all_bounded, all_roomy, copies_of, distinct_urls, first_with_url, has_url,
    matching, records_of, urls_of, with_forward, RpcPool,
};
use crate::rpc::types::{
    fresh_rpc, AddRpcRequest, AddRpcRequestView, JsonRpcRequest, JsonRpcRequestView,
    JsonRpcResponse, Rpc, RpcLocation, RpcRequest, RpcRequestView, RpcView,
};
use crate::sort::functions::{effective, selected, sort_rpc_list_by_algo, sortable, views_of};
use crate::sort::types::Algo;
use crate::text::{chars_of, last_segment, last_segment_start, parse_unsigned, unsigned_numeral};
use vstd::prelude::*;

verus! {

/// The chain that a request path names: its last segment read as a decimal
/// number, and 0 where that segment is no such number.
pub open spec fn chain_id_of(path: Seq<char>) -> nat {
    match unsigned_numeral(last_segment(path), 10, usize::MAX as int) {
        Some(n) => n as nat,
        None => 0,
    }
}

/// Reads the chain from the path of a request.
pub fn extract_chain_id(path: &str) -> (chain_id: usize)
    ensures
        chain_id == chain_id_of(path@),
{
    let chars: Vec<char> = chars_of(path);
    let start: usize = last_segment_start(&chars);
    match parse_unsigned(&chars, start, 10, usize::MAX as u64) {
        Some(n) => n as usize,
        None => 0,
    }
}

/// The body of a failure: the envelope with a null `id`, `jsonrpc` 2.0 and
/// the `error` text of the code and the message.
pub open spec fn failure(code: ErrorCode, message: Seq<char>) -> Seq<char> {
    envelope(None, "2.0"@, "error"@, error_text(code, message))
}

/// The body that answers a control operation: the envelope with `id` 1,
/// `jsonrpc` 2.0 and the `result` text.
pub open spec fn success(result: Seq<char>) -> Seq<char> {
    envelope(Some(1u64), "2.0"@, "result"@, result)
}

/// The body of a failure whose message needs no escape: the `error` text
/// stands as it is between quotation marks.
pub open spec fn plain_failure(code: ErrorCode, message: Seq<char>) -> Seq<char> {
    plain_envelope(None, "2.0"@, "error"@, error_text(code, message))
}

/// The body that answers a control operation with a result that needs no
/// escape.
pub open spec fn plain_success(result: Seq<char>) -> Seq<char> {
    plain_envelope(Some(1u64), "2.0"@, "result"@, result)
}

/// The fixed texts of the balancer need no escape.
pub proof fn lemma_fixed_texts()
    ensures
        unescaped("2.0"@),
        unescaped("Invalid Json"@),
        unescaped("chain_id path required (i.e. https://127.0.0.1:3000/10)"@),
        unescaped("No RPC nodes found for the specified chain ID"@),
        unescaped("No RPC nodes responded successfully"@),
        unescaped("Bad request"@),
        unescaped("Internal server error"@),
        unescaped("Request to RPC node timed out"@),
        unescaped("RPC node network connection error"@),
        unescaped("Rpc already added"@),
        unescaped("Rpc added successfully"@),
{
    reveal_with_fuel(unescaped_upto, 64);
    assert(unescaped("2.0"@)) by {
        reveal_strlit("2.0");
        lemma_unescaped_upto("2.0"@, 3);
    }
    assert(unescaped("Invalid Json"@)) by {
        reveal_strlit("Invalid Json");
        lemma_unescaped_upto("Invalid Json"@, 12);
    }
    assert(unescaped("chain_id path required (i.e. https://127.0.0.1:3000/10)"@)) by {
        reveal_strlit("chain_id path required (i.e. https://127.0.0.1:3000/10)");
        lemma_unescaped_upto("chain_id path required (i.e. https://127.0.0.1:3000/10)"@, 55);
    }
    assert(unescaped("No RPC nodes found for the specified chain ID"@)) by {
        reveal_strlit("No RPC nodes found for the specified chain ID");
        lemma_unescaped_upto("No RPC nodes found for the specified chain ID"@, 45);
    }
    assert(unescaped("No RPC nodes responded successfully"@)) by {
        reveal_strlit("No RPC nodes responded successfully");
        lemma_unescaped_upto("No RPC nodes responded successfully"@, 35);
    }
    assert(unescaped("Bad request"@)) by {
        reveal_strlit("Bad request");
        lemma_unescaped_upto("Bad request"@, 11);
    }
    assert(unescaped("Internal server error"@)) by {
        reveal_strlit("Internal server error");
        lemma_unescaped_upto("Internal server error"@, 21);
    }
    assert(unescaped("Request to RPC node timed out"@)) by {
        reveal_strlit("Request to RPC node timed out");
        lemma_unescaped_upto("Request to RPC node timed out"@, 29);
    }
    assert(unescaped("RPC node network connection error"@)) by {
        reveal_strlit("RPC node network connection error");
        lemma_unescaped_upto("RPC node network connection error"@, 33);
    }
    assert(unescaped("Rpc already added"@)) by {
        reveal_strlit("Rpc already added");
        lemma_unescaped_upto("Rpc already added"@, 17);
    }
    assert(unescaped("Rpc added successfully"@)) by {
        reveal_strlit("Rpc added successfully");
        lemma_unescaped_upto("Rpc added successfully"@, 22);
    }
}

/// The reply to a body that is no JSON, or JSON of no known shape, as text.
pub proof fn law_invalid_json_reply()
    ensures
        plain_failure(ErrorCode::BadRequest, "Invalid Json"@)
            == "{\"id\":null,\"jsonrpc\":\"2.0\",\"error\":\"400: Invalid Json\"}"@,
{
    let built = plain_failure(ErrorCode::BadRequest, "Invalid Json"@);
    let text = "{\"id\":null,\"jsonrpc\":\"2.0\",\"error\":\"400: Invalid Json\"}"@;
    reveal_strlit("{\"id\":");
    reveal_strlit(",\"jsonrpc\":");
    reveal_strlit("2.0");
    reveal_strlit(",\"");
    reveal_strlit("error");
    reveal_strlit("\":");
    reveal_strlit("}");
    reveal_strlit("Invalid Json");
    reveal_strlit("{\"id\":null,\"jsonrpc\":\"2.0\",\"error\":\"400: Invalid Json\"}");
    reveal_with_fuel(decimal_digits, 3);
    assert(built.len() == 55);
    assert(text.len() == 55);
    assert(same_upto(built, text, 32)) by {
        reveal_with_fuel(same_upto, 33);
    }
    assert(same_upto(built, text, 55)) by {
        reveal_with_fuel(same_upto, 33);
    }
    lemma_same_upto(built, text, 55);
    assert(built =~= text);
}

/// The reply to a request that names no chain, as text.
pub proof fn law_chain_required_reply()
    ensures
        plain_failure(ErrorCode::BadRequest, "chain_id path required (i.e. https://127.0.0.1:3000/10)"@)
            == "{\"id\":null,\"jsonrpc\":\"2.0\",\"error\":\"400: chain_id path required (i.e. https://127.0.0.1:3000/10)\"}"@,
{
    let built = plain_failure(ErrorCode::BadRequest, "chain_id path required (i.e. https://127.0.0.1:3000/10)"@);
    let text = "{\"id\":null,\"jsonrpc\":\"2.0\",\"error\":\"400: chain_id path required (i.e. https://127.0.0.1:3000/10)\"}"@;
    reveal_strlit("{\"id\":");
    reveal_strlit(",\"jsonrpc\":");
    reveal_strlit("2.0");
    reveal_strlit(",\"");
    reveal_strlit("error");
    reveal_strlit("\":");
    reveal_strlit("}");
    reveal_strlit("chain_id path required (i.e. https://127.0.0.1:3000/10)");
    reveal_strlit("{\"id\":null,\"jsonrpc\":\"2.0\",\"error\":\"400: chain_id path required (i.e. https://127.0.0.1:3000/10)\"}");
    reveal_with_fuel(decimal_digits, 3);
    assert(built.len() == 98);
    assert(text.len() == 98);
    assert(same_upto(built, text, 32)) by {
        reveal_with_fuel(same_upto, 33);
    }
    assert(same_upto(built, text, 64)) by {
        reveal_with_fuel(same_upto, 33);
    }
    assert(same_upto(built, text, 96)) by {
        reveal_with_fuel(same_upto, 33);
    }
    assert(same_upto(built, text, 98)) by {
        reveal_with_fuel(same_upto, 33);
    }
    lemma_same_upto(built, text, 98);
    assert(built =~= text);
}

/// The reply to a request for a chain without backends, as text.
pub proof fn law_no_backend_reply()
    ensures
        plain_failure(ErrorCode::NotFound, "No RPC nodes found for the specified chain ID"@)
            == "{\"id\":null,\"jsonrpc\":\"2.0\",\"error\":\"404: No RPC nodes found for the specified chain ID\"}"@,
{
    let built = plain_failure(ErrorCode::NotFound, "No RPC nodes found for the specified chain ID"@);
    let text = "{\"id\":null,\"jsonrpc\":\"2.0\",\"error\":\"404: No RPC nodes found for the specified chain ID\"}"@;
    reveal_strlit("{\"id\":");
    reveal_strlit(",\"jsonrpc\":");
    reveal_strlit("2.0");
    reveal_strlit(",\"");
    reveal_strlit("error");
    reveal_strlit("\":");
    reveal_strlit("}");
    reveal_strlit("No RPC nodes found for the specified chain ID");
    reveal_strlit("{\"id\":null,\"jsonrpc\":\"2.0\",\"error\":\"404: No RPC nodes found for the specified chain ID\"}");
    reveal_with_fuel(decimal_digits, 3);
    assert(built.len() == 88);
    assert(text.len() == 88);
    assert(same_upto(built, text, 32)) by {
        reveal_with_fuel(same_upto, 33);
    }
    assert(same_upto(built, text, 64)) by {
        reveal_with_fuel(same_upto, 33);
    }
    assert(same_upto(built, text, 88)) by {
        reveal_with_fuel(same_upto, 33);
    }
    lemma_same_upto(built, text, 88);
    assert(built =~= text);
}

/// Writes the body of a failure.
pub fn failure_body(code: ErrorCode, message: &str) -> (body: String)
    ensures
        body@ == failure(code, message@),
        unescaped(message@) ==> body@ == plain_failure(code, message@),
{
    proof {
        lemma_fixed_texts();
    }
    JsonRpcErrorResponse::new(ApplicationError::new(code, message.to_owned())).to_json()
}

/// Writes the body that answers a control operation.
pub fn success_body(result: &str) -> (body: String)
    ensures
        body@ == success(result@),
        unescaped(result@) ==> body@ == plain_success(result@),
{
    proof {
        lemma_fixed_texts();
    }
    JsonRpcResponse::new(result.to_owned()).to_json()
}

/// The text under a key of a JSON object, where it holds one.
pub open spec fn text_member(value: serde_json::Value, key: Seq<char>) -> Option<Seq<char>> {
    match json_member(value, key) {
        Some(inner) => json_str(inner),
        None => None,
    }
}

/// The call that a JSON value holds: an object with the texts `jsonrpc` and
/// `method`, an array `params` and a member `id`.
pub open spec fn call_in(value: serde_json::Value) -> Option<JsonRpcRequestView> {
    match (
        text_member(value, "jsonrpc"@),
        text_member(value, "method"@),
        json_member(value, "params"@),
        json_member(value, "id"@),
    ) {
        (Some(jsonrpc), Some(method), Some(params), Some(id)) => match json_items(params) {
            Some(items) => Some(
                JsonRpcRequestView {
                    jsonrpc,
                    method,
                    params: Seq::new(items.len(), |i: int| json_rendered(items[i])),
                    id: json_rendered(id),
                },
            ),
            None => None,
        },
        _ => None,
    }
}

/// The request to add a backend that a JSON value holds: an object with the
/// texts `url`, `ws_url` and `rpc_location` and the number `chain_id`, a
/// non-negative integer of the machine's word size.
pub open spec fn add_in(value: serde_json::Value) -> Option<AddRpcRequestView> {
    match (
        text_member(value, "url"@),
        text_member(value, "ws_url"@),
        json_member(value, "chain_id"@),
        text_member(value, "rpc_location"@),
    ) {
        (Some(url), Some(ws_url), Some(chain), Some(rpc_location)) => match json_u64(chain) {
            Some(chain_id) => if chain_id <= usize::MAX {
                Some(AddRpcRequestView { url, ws_url, chain_id: chain_id as nat, rpc_location })
            } else {
                None
            },
            None => None,
        },
        _ => None,
    }
}

/// The calls that a JSON value holds: an array of calls.
pub open spec fn calls_in(value: serde_json::Value) -> Option<Seq<JsonRpcRequestView>> {
    match json_items(value) {
        Some(items) => if forall|i: int| 0 <= i < items.len() ==> call_in(#[trigger] items[i]) is Some {
            Some(Seq::new(items.len(), |i: int| call_in(items[i])->0))
        } else {
            None
        },
        None => None,
    }
}

/// The requests to add a backend that a JSON value holds: an array of them.
pub open spec fn adds_in(value: serde_json::Value) -> Option<Seq<AddRpcRequestView>> {
    match json_items(value) {
        Some(items) => if forall|i: int| 0 <= i < items.len() ==> add_in(#[trigger] items[i]) is Some {
            Some(Seq::new(items.len(), |i: int| add_in(items[i])->0))
        } else {
            None
        },
        None => None,
    }
}

/// The shape of a request body: the first that fits of a call, a batch of
/// calls, a request to add a backend and a batch of those.
pub open spec fn shape_of(value: serde_json::Value) -> Option<RpcRequestView> {
    if call_in(value) is Some {
        Some(RpcRequestView::JsonRpc(call_in(value)->0))
    } else if calls_in(value) is Some {
        Some(RpcRequestView::JsonRpcArray(calls_in(value)->0))
    } else if add_in(value) is Some {
        Some(RpcRequestView::AddRpc(add_in(value)->0))
    } else if adds_in(value) is Some {
        Some(RpcRequestView::AddRpcArray(adds_in(value)->0))
    } else {
        None
    }
}

fn read_text(value: &serde_json::Value, key: &str) -> (text: Option<String>)
    ensures
        match text {
            Some(t) => text_member(*value, key@) == Some(t@),
            None => text_member(*value, key@) is None,
        },
{
    match member(value, key) {
        Some(inner) => match text_in(inner) {
            Some(s) => Some(s.to_owned()),
            None => None,
        },
        None => None,
    }
}

fn read_call(value: &serde_json::Value) -> (call: Option<JsonRpcRequest>)
    ensures
        match call {
            Some(c) => call_in(*value) == Some(c@),
            None => call_in(*value) is None,
        },
{
    let jsonrpc: String = match read_text(value, "jsonrpc") {
        Some(text) => text,
        None => { return None; },
    };
    let method: String = match read_text(value, "method") {
        Some(text) => text,
        None => { return None; },
    };
    let params_value: &serde_json::Value = match member(value, "params") {
        Some(inner) => inner,
        None => { return None; },
    };
    let id_value: &serde_json::Value = match member(value, "id") {
        Some(inner) => inner,
        None => { return None; },
    };
    let items: &Vec<serde_json::Value> = match items_in(params_value) {
        Some(items) => items,
        None => { return None; },
    };
    let mut params: Vec<String> = Vec::new();
    let mut i: usize = 0;
    while i < items.len()
        invariant
            i <= items.len(),
            params@.len() == i,
            forall|k: int| 0 <= k < i ==> (#[trigger] params@[k])@ == json_rendered(items@[k]),
        decreases items.len() - i,
    {
        params.push(rendered(&items[i]));
        i = i + 1;
    }
    let call = JsonRpcRequest { jsonrpc, method, params, id: rendered(id_value) };
    assert(call@.params =~= Seq::new(items@.len(), |i: int| json_rendered(items@[i])));
    Some(call)
}

fn read_add(value: &serde_json::Value) -> (add: Option<AddRpcRequest>)
    ensures
        match add {
            Some(a) => add_in(*value) == Some(a@),
            None => add_in(*value) is None,
        },
{
    let url: String = match read_text(value, "url") {
        Some(text) => text,
        None => { return None; },
    };
    let ws_url: String = match read_text(value, "ws_url") {
        Some(text) => text,
        None => { return None; },
    };
    let chain_value: &serde_json::Value = match member(value, "chain_id") {
        Some(inner) => inner,
        None => { return None; },
    };
    let rpc_location: String = match read_text(value, "rpc_location") {
        Some(text) => text,
        None => { return None; },
    };
    match number_in(chain_value) {
        Some(chain) => if chain <= usize::MAX as u64 {
            Some(AddRpcRequest { url, ws_url, chain_id: chain as usize, rpc_location })
        } else {
            None
        },
        None => None,
    }
}

fn read_calls(value: &serde_json::Value) -> (calls: Option<Vec<JsonRpcRequest>>)
    ensures
        match calls {
            Some(all) => calls_in(*value) == Some(Seq::new(all@.len(), |i: int| all@[i]@)),
            None => calls_in(*value) is None,
        },
{
    let items: &Vec<serde_json::Value> = match items_in(value) {
        Some(items) => items,
        None => { return None; },
    };
    let mut calls: Vec<JsonRpcRequest> = Vec::new();
    let mut i: usize = 0;
    while i < items.len()
        invariant
            i <= items.len(),
            calls@.len() == i,
            json_items(*value) == Some(items@),
            forall|k: int| 0 <= k < i ==> call_in(#[trigger] items@[k]) == Some(calls@[k]@),
        decreases items.len() - i,
    {
        match read_call(&items[i]) {
            Some(call) => {
                calls.push(call);
            },
            None => {
                assert(call_in(items@[i as int]) is None);
                return None;
            },
        }
        i = i + 1;
    }
    assert(Seq::new(calls@.len(), |i: int| calls@[i]@) =~= Seq::new(
        items@.len(),
        |i: int| call_in(items@[i])->0,
    ));
    Some(calls)
}

fn read_adds(value: &serde_json::Value) -> (adds: Option<Vec<AddRpcRequest>>)
    ensures
        match adds {
            Some(all) => adds_in(*value) == Some(Seq::new(all@.len(), |i: int| all@[i]@)),
            None => adds_in(*value) is None,
        },
{
    let items: &Vec<serde_json::Value> = match items_in(value) {
        Some(items) => items,
        None => { return None; },
    };
    let mut adds: Vec<AddRpcRequest> = Vec::new();
    let mut i: usize = 0;
    while i < items.len()
        invariant
            i <= items.len(),
            adds@.len() == i,
            json_items(*value) == Some(items@),
            forall|k: int| 0 <= k < i ==> add_in(#[trigger] items@[k]) == Some(adds@[k]@),
        decreases items.len() - i,
    {
        match read_add(&items[i]) {
            Some(add) => {
                adds.push(add);
            },
            None => {
                assert(add_in(items@[i as int]) is None);
                return None;
            },
        }
        i = i + 1;
    }
    assert(Seq::new(adds@.len(), |i: int| adds@[i]@) =~= Seq::new(
        items@.len(),
        |i: int| add_in(items@[i])->0,
    ));
    Some(adds)
}

/// Reads the body of a request as JSON; a body that is no JSON gives the
/// failure `400: Invalid Json`.
pub fn incoming_to_value(body: &str) -> (value: Result<serde_json::Value, JsonRpcErrorResponse>)
    ensures
        match value {
            Ok(v) => json_parsed(body@) == Some(v),
            Err(response) => {
                &&& json_parsed(body@) is None
                &&& response.id is None
                &&& response.jsonrpc@ == "2.0"@
                &&& response.error.code == ErrorCode::BadRequest
                &&& response.error.message@ == "Invalid Json"@
            },
        },
{
    match parse(body) {
        Some(value) => Ok(value),
        None => Err(
            JsonRpcErrorResponse::new(
                ApplicationError::new(ErrorCode::BadRequest, "Invalid Json".to_owned()),
            ),
        ),
    }
}

/// Tells the shape of a request body; a body of no known shape gives the
/// failure `400: Invalid Json`.
pub fn parse_rpc_request(value: serde_json::Value) -> (request: Result<
    RpcRequest,
    ApplicationError,
>)
    ensures
        match request {
            Ok(shape) => shape_of(value) == Some(shape@),
            Err(error) => {
                &&& shape_of(value) is None
                &&& error.code == ErrorCode::BadRequest
                &&& error.message@ == "Invalid Json"@
            },
        },
{
    if let Some(req) = read_call(&value) {
        Ok(RpcRequest::JsonRpc(req))
    } else if let Some(reqs) = read_calls(&value) {
        Ok(RpcRequest::JsonRpcArray(reqs))
    } else if let Some(req) = read_add(&value) {
        Ok(RpcRequest::AddRpc(req))
    } else if let Some(reqs) = read_adds(&value) {
        Ok(RpcRequest::AddRpcArray(reqs))
    } else {
        Err(ApplicationError::new(ErrorCode::BadRequest, "Invalid Json".to_owned()))
    }
}

/// Where a request goes.
#[derive(Debug)]
pub enum Route {
    /// A raw transaction: to every backend of the chain at once.
    Broadcast { chain_id: usize, body: String },
    /// Any other call, or a batch: to the backends of the chain in turn.
    Forward { chain_id: usize, body: String },
    /// A backend to add to the pool.
    Add { request: AddRpcRequest },
    /// Backends to add to the pool, one after the other.
    AddBatch { requests: Vec<AddRpcRequest> },
    /// Nowhere: the client is answered at once.
    Reply { body: String },
}

/// The route of a request with the given path whose body holds `value`.
pub open spec fn routed(route: Route, path: Seq<char>, value: serde_json::Value) -> bool {
    match shape_of(value) {
        Some(RpcRequestView::JsonRpc(call)) => if call.method == "eth_sendRawTransaction"@ {
            &&& route matches Route::Broadcast { chain_id, body }
            &&& chain_id == chain_id_of(path)
            &&& body@ == json_rendered(value)
        } else {
            &&& route matches Route::Forward { chain_id, body }
            &&& chain_id == chain_id_of(path)
            &&& body@ == json_rendered(value)
        },
        Some(RpcRequestView::JsonRpcArray(_)) => {
            &&& route matches Route::Forward { chain_id, body }
            &&& chain_id == chain_id_of(path)
            &&& body@ == json_rendered(value)
        },
        Some(RpcRequestView::AddRpc(add)) => {
            &&& route matches Route::Add { request }
            &&& request@ == add
        },
        Some(RpcRequestView::AddRpcArray(adds)) => {
            &&& route matches Route::AddBatch { requests }
            &&& Seq::new(requests@.len(), |i: int| requests@[i]@) == adds
        },
        None => {
            &&& route matches Route::Reply { body }
            &&& body@ == plain_failure(ErrorCode::BadRequest, "Invalid Json"@)
        },
    }
}

/// Routes a request whose body was read as `value`.
pub fn route_request(path: &str, value: serde_json::Value) -> (route: Route)
    ensures
        routed(route, path@, value),
{
    proof {
        lemma_fixed_texts();
    }
    let chain_id: usize = extract_chain_id(path);
    let body: String = rendered(&value);
    match parse_rpc_request(value) {
        Ok(RpcRequest::JsonRpc(req)) => {
            let raw: String = "eth_sendRawTransaction".to_owned();
            if req.method == raw {
                Route::Broadcast { chain_id, body }
            } else {
                Route::Forward { chain_id, body }
            }
        },
        Ok(RpcRequest::JsonRpcArray(_reqs)) => Route::Forward { chain_id, body },
        Ok(RpcRequest::AddRpc(req)) => Route::Add { request: req },
        Ok(RpcRequest::AddRpcArray(reqs)) => Route::AddBatch { requests: reqs },
        Err(error) => {
            let response = JsonRpcErrorResponse::new(error);
            Route::Reply { body: response.to_json() }
        },
    }
}

/// Routes a request by its path and its body: a body that is no JSON, or
/// JSON of no known shape, is answered with `400: Invalid Json`.
pub fn forward_json_rpc_request(path: &str, body: &str) -> (route: Route)
    ensures
        match json_parsed(body@) {
            Some(value) => routed(route, path@, value),
            None => {
                &&& route matches Route::Reply { body: reply }
                &&& reply@ == plain_failure(ErrorCode::BadRequest, "Invalid Json"@)
            },
        },
{
    proof {
        lemma_fixed_texts();
    }
    match incoming_to_value(body) {
        Ok(value) => route_request(path, value),
        Err(response) => Route::Reply { body: response.to_json() },
    }
}

/// The answer to a batch of control operations: the answers in brackets,
/// with a comma between two of them.
pub open spec fn bracketed(parts: Seq<Seq<char>>) -> Seq<char> {
    seq!['['] + comma_separated(parts) + seq![']']
}

/// The texts with a comma between two of them.
pub open spec fn comma_separated(parts: Seq<Seq<char>>) -> Seq<char>
    decreases parts.len(),
{
    if parts.len() == 0 {
        Seq::empty()
    } else if parts.len() == 1 {
        parts[0]
    } else {
        comma_separated(parts.drop_last()) + seq![','] + parts.last()
    }
}

/// Writes the answer to a batch of control operations from the answer to
/// each.
pub fn join_responses(responses: &Vec<String>) -> (body: String)
    ensures
        body@ == bracketed(Seq::new(responses@.len(), |i: int| responses@[i]@)),
{
    let ghost parts = Seq::new(responses@.len(), |i: int| responses@[i]@);
    let mut body: String = String::from_str("[");
    proof {
        reveal_strlit("[");
        reveal_strlit(",");
        reveal_strlit("]");
        assert(parts.subrange(0, 0) =~= Seq::<Seq<char>>::empty());
        assert(body@ =~= seq!['['] + comma_separated(parts.subrange(0, 0)));
    }
    let mut i: usize = 0;
    while i < responses.len()
        invariant
            i <= responses.len(),
            parts == Seq::new(responses@.len(), |i: int| responses@[i]@),
            body@ == seq!['['] + comma_separated(parts.subrange(0, i as int)),
        decreases responses.len() - i,
    {
        proof {
            reveal_strlit(",");
            let longer = parts.subrange(0, i + 1);
            assert(longer.drop_last() =~= parts.subrange(0, i as int));
            assert(longer.last() == responses@[i as int]@);
        }
        let ghost before = body@;
        if i > 0 {
            body.append(",");
        }
        body.append(responses[i].as_str());
        proof {
            let longer = parts.subrange(0, i + 1);
            if i > 0 {
                assert(body@ =~= seq!['['] + (comma_separated(longer.drop_last()) + seq![','] + longer.last()));
            } else {
                assert(comma_separated(longer.drop_last()) =~= Seq::<char>::empty());
                assert(body@ =~= seq!['['] + longer[0]);
            }
        }
        i = i + 1;
    }
    proof {
        reveal_strlit("]");
        assert(parts.subrange(0, i as int) =~= parts);
    }
    body.append("]");
    assert(body@ =~= bracketed(parts));
    body
}

/// How a request to a backend ended.
#[derive(Debug)]
pub enum Upstream {
    /// The backend answered: the status code, the status as text (the code
    /// and its reason), and the body where the status is a success.
    Answered { status: u16, status_text: String, body: String },
    /// No answer came: whether the request timed out, whether no connection
    /// was made, and the description of what went wrong.
    Failed { timed_out: bool, connect: bool, description: String },
}

/// What the dispatcher gets for a request to a backend: the body of a
/// success, and for everything else the body of the failure that tells it.
/// A request that timed out is told as such, whatever else is true of it;
/// of the others, one that made no connection is told as such.
pub open spec fn upstream_body(outcome: Upstream) -> Seq<char> {
    match outcome {
        Upstream::Answered { status, status_text, body } => if 200 <= status < 300 {
            body@
        } else if 400 <= status < 500 {
            plain_failure(ErrorCode::BadRequest, "Bad request"@)
        } else if 500 <= status < 600 {
            plain_failure(ErrorCode::InternalServerError, "Internal server error"@)
        } else {
            failure(ErrorCode::UnknownError, status_text@)
        },
        Upstream::Failed { timed_out, connect, description } => if timed_out {
            plain_failure(ErrorCode::RequestTimeout, "Request to RPC node timed out"@)
        } else if connect {
            plain_failure(
                ErrorCode::HandleConnectionError,
                "RPC node network connection error"@,
            )
        } else {
            failure(ErrorCode::UnknownError, description@)
        },
    }
}

/// Turns the end of a request to a backend into what the dispatcher gets.
/// Every end gives a body, a failed request the body of its failure, so the
/// dispatcher takes each for an answer.
pub fn send_request(outcome: Upstream) -> (response: Result<String, ApplicationError>)
    ensures
        response matches Ok(body) && body@ == upstream_body(outcome),
{
    proof {
        lemma_fixed_texts();
    }
    match outcome {
        Upstream::Answered { status, status_text, body } => {
            if 200 <= status && status < 300 {
                Ok(body)
            } else if 400 <= status && status < 500 {
                Ok(failure_body(ErrorCode::BadRequest, "Bad request"))
            } else if 500 <= status && status < 600 {
                Ok(failure_body(ErrorCode::InternalServerError, "Internal server error"))
            } else {
                Ok(failure_body(ErrorCode::UnknownError, status_text.as_str()))
            }
        },
        Upstream::Failed { timed_out, connect, description } => {
            if timed_out {
                Ok(failure_body(ErrorCode::RequestTimeout, "Request to RPC node timed out"))
            } else if connect {
                Ok(
                    failure_body(
                        ErrorCode::HandleConnectionError,
                        "RPC node network connection error",
                    ),
                )
            } else {
                Ok(failure_body(ErrorCode::UnknownError, description.as_str()))
            }
        },
    }
}

/// What the dispatcher does next.
#[derive(Debug)]
pub enum Step {
    /// Post the request to the backend at this URL.
    Send { url: String },
    /// Answer the client with this body.
    Reply { body: String },
}

/// A request that is tried on the backends of its chain in turn: the
/// backends in the order of the selection, and the place of the one that
/// the request was sent to last.
#[derive(Debug)]
pub struct Failover {
    pub candidates: Vec<Rpc>,
    pub next: usize,
}

/// The step that tries the candidate at `place`, or gives up after the last.
pub open spec fn tries(step: Step, candidates: Seq<RpcView>, place: int) -> bool {
    if 0 <= place < candidates.len() {
        step matches Step::Send { url } && url@ == candidates[place].url
    } else {
        step matches Step::Reply { body } && body@ == plain_failure(
            ErrorCode::InternalServerError,
            "No RPC nodes responded successfully"@,
        )
    }
}

/// Begins the sequential dispatch of a request for a chain: takes the
/// backends of the chain from the pool and puts them in the order of the
/// algorithm. A request for chain 0 is answered with `400`, one for a chain
/// without backends with `404`; any other is sent to the first backend.
pub fn forward_rpc_request(rpc_list: &RpcPool, chain_id: usize, algo: Algo) -> (plan: (
    Failover,
    Step,
))
    requires
        chain_id != 0 ==> sortable(algo, matching(rpc_list@, chain_id as nat)),
    ensures
        plan.0.next == 0,
        if chain_id == 0 {
            &&& plan.0.candidates@.len() == 0
            &&& plan.1 matches Step::Reply { body }
            &&& body@ == plain_failure(
                ErrorCode::BadRequest,
                "chain_id path required (i.e. https://127.0.0.1:3000/10)"@,
            )
        } else if matching(rpc_list@, chain_id as nat).len() == 0 {
            &&& plan.0.candidates@.len() == 0
            &&& plan.1 matches Step::Reply { body }
            &&& body@ == plain_failure(
                ErrorCode::NotFound,
                "No RPC nodes found for the specified chain ID"@,
            )
        } else {
            &&& selected(
                effective(algo),
                matching(rpc_list@, chain_id as nat),
                records_of(plan.0.candidates@),
            )
            &&& tries(plan.1, records_of(plan.0.candidates@), 0)
        },
{
    proof {
        lemma_fixed_texts();
    }
    if chain_id == 0 {
        let body: String = failure_body(
            ErrorCode::BadRequest,
            "chain_id path required (i.e. https://127.0.0.1:3000/10)",
        );
        return (Failover { candidates: Vec::new(), next: 0 }, Step::Reply { body });
    }
    let filtered_rpc_list: Vec<&Rpc> = rpc_list.serving(chain_id);
    if filtered_rpc_list.len() == 0 {
        let body: String = failure_body(
            ErrorCode::NotFound,
            "No RPC nodes found for the specified chain ID",
        );
        return (Failover { candidates: Vec::new(), next: 0 }, Step::Reply { body });
    }
    let sorted_rpc_list: Vec<&Rpc> = sort_rpc_list_by_algo(algo, filtered_rpc_list);
    let candidates: Vec<Rpc> = copies_of(&sorted_rpc_list);
    let url: String = candidates[0].url.clone();
    (Failover { candidates, next: 0 }, Step::Send { url })
}

/// The pool after a forwarded request was recorded with the first backend
/// that has the URL; with no such backend the pool is as before.
pub open spec fn recorded(
    before: Seq<RpcView>,
    after: Seq<RpcView>,
    url: Seq<char>,
    intra: u64,
    srv: u64,
    arrival: u64,
) -> bool {
    if has_url(before, url) {
        exists|i: int| #[trigger]
            first_with_url(before, url, i) && after == before.update(
                i,
                with_forward(before[i], intra, srv, arrival),
            )
    } else {
        after == before
    }
}

/// What the dispatcher does with the end of a request to the candidate in
/// turn. A body is the answer: the client gets it, and the backend's windows
/// get the time before the request was posted, the time that the backend
/// took and the time of the answer. Without a body the next candidate is
/// tried, and after the last the client is told `500`.
pub open spec fn response_handled(
    candidates: Seq<RpcView>,
    turn: int,
    pool: Seq<RpcView>,
    response: Result<String, ApplicationError>,
    intra_latency: u64,
    total_latency: u64,
    arrival: u64,
    next_turn: int,
    next_pool: Seq<RpcView>,
    step: Step,
) -> bool {
    match response {
        Ok(body) => {
            &&& step matches Step::Reply { body: reply }
            &&& reply@ == body@
            &&& next_turn == turn
            &&& recorded(
                pool,
                next_pool,
                candidates[turn].url,
                intra_latency,
                (total_latency - intra_latency) as u64,
                arrival,
            )
        },
        Err(_) => {
            &&& next_turn == turn + 1
            &&& next_pool == pool
            &&& tries(step, candidates, turn + 1)
        },
    }
}

/// After a request was answered by a backend, the newest sample of each of
/// that backend's windows is the request's: the time before it was posted,
/// the time that the backend took, which is the whole time less the time
/// before, and the time of the answer.
pub proof fn law_answer_is_recorded(
    candidates: Seq<RpcView>,
    turn: int,
    pool: Seq<RpcView>,
    response: Result<String, ApplicationError>,
    intra_latency: u64,
    total_latency: u64,
    arrival: u64,
    next_turn: int,
    next_pool: Seq<RpcView>,
    step: Step,
    place: int,
)
    requires
        response is Ok,
        intra_latency <= total_latency,
        first_with_url(pool, candidates[turn].url, place),
        response_handled(
            candidates,
            turn,
            pool,
            response,
            intra_latency,
            total_latency,
            arrival,
            next_turn,
            next_pool,
            step,
        ),
    ensures
        next_pool.len() == pool.len(),
        next_pool[place].intra_latencies.values.first() == intra_latency,
        next_pool[place].srv_latencies.values.first() == total_latency - intra_latency,
        next_pool[place].arrivals_ts.values.first() == arrival,
        forall|i: int| 0 <= i < pool.len() && i != place ==> next_pool[i] == pool[i],
{
    let url = candidates[turn].url;
    assert(has_url(pool, url));
    let i = choose|i: int| #[trigger]
        first_with_url(pool, url, i) && next_pool == pool.update(
            i,
            with_forward(
                pool[i],
                intra_latency,
                (total_latency - intra_latency) as u64,
                arrival,
            ),
        );
    if i < place {
        assert(pool[i].url != url);
    } else if place < i {
        assert(pool[place].url != url);
    }
}

/// Goes on with a sequential dispatch once the request to the candidate in
/// turn has ended, at the time `arrival`.
pub fn forward_rpc_response_at(
    state: &mut Failover,
    rpc_list: &mut RpcPool,
    response: Result<String, ApplicationError>,
    intra_latency: u64,
    total_latency: u64,
    arrival: u64,
) -> (step: Step)
    requires
        old(state).next < old(state).candidates@.len(),
        intra_latency <= total_latency,
    ensures
        final(state).candidates == old(state).candidates,
        response_handled(
            records_of(old(state).candidates@),
            old(state).next as int,
            old(rpc_list)@,
            response,
            intra_latency,
            total_latency,
            arrival,
            final(state).next as int,
            final(rpc_list)@,
            step,
        ),
        distinct_urls(old(rpc_list)@) ==> distinct_urls(final(rpc_list)@),
        all_bounded(old(rpc_list)@) && all_roomy(old(rpc_list)@) ==> all_bounded(
            final(rpc_list)@,
        ) && all_roomy(final(rpc_list)@),
{
    proof {
        lemma_fixed_texts();
    }
    match response {
        Ok(body) => {
            let ghost url = state.candidates@[state.next as int].url@;
            let place = rpc_list.record_forward(
                state.candidates[state.next].url.as_str(),
                intra_latency,
                total_latency,
                arrival,
            );
            proof {
                assert(records_of(state.candidates@)[state.next as int].url == url);
                match place {
                    Some(i) => {
                        assert(first_with_url(old(rpc_list)@, url, i as int));
                        assert(has_url(old(rpc_list)@, url));
                    },
                    None => {},
                }
            }
            Step::Reply { body }
        },
        Err(_) => {
            let count: usize = state.candidates.len();
            state.next = state.next + 1;
            if state.next < count {
                Step::Send { url: state.candidates[state.next].url.clone() }
            } else {
                Step::Reply {
                    body: failure_body(
                        ErrorCode::InternalServerError,
                        "No RPC nodes responded successfully",
                    ),
                }
            }
        },
    }
}

/// Goes on with a sequential dispatch once the request to the candidate in
/// turn has ended: reads the wall clock for the time of the answer, and does
/// what `forward_rpc_response_at` does at that time.
pub fn forward_rpc_response(
    state: &mut Failover,
    rpc_list: &mut RpcPool,
    response: Result<String, ApplicationError>,
    intra_latency: u64,
    total_latency: u64,
) -> (step: Step)
    requires
        old(state).next < old(state).candidates@.len(),
        intra_latency <= total_latency,
    ensures
        final(state).candidates == old(state).candidates,
        exists|arrival: u64| #[trigger]
            response_handled(
                records_of(old(state).candidates@),
                old(state).next as int,
                old(rpc_list)@,
                response,
                intra_latency,
                total_latency,
                arrival,
                final(state).next as int,
                final(rpc_list)@,
                step,
            ),
        distinct_urls(old(rpc_list)@) ==> distinct_urls(final(rpc_list)@),
        all_bounded(old(rpc_list)@) && all_roomy(old(rpc_list)@) ==> all_bounded(
            final(rpc_list)@,
        ) && all_roomy(final(rpc_list)@),
{
    let arrival: u64 = wall_clock_ms();
    forward_rpc_response_at(state, rpc_list, response, intra_latency, total_latency, arrival)
}

/// A raw transaction that was sent to every backend of its chain: what came
/// back so far, in the order in which it came.
#[derive(Debug)]
pub struct Broadcast {
    pub results: Vec<String>,
}

/// What a broadcast does after one more backend has answered.
#[derive(Debug)]
pub enum BroadcastStep {
    /// Answer the client with this body.
    Reply { body: String },
    /// Wait for the next backend.
    Wait,
    /// The backend's answer is no JSON.
    Malformed,
}

/// The JSON value has a member `result` that is not null.
pub open spec fn carries_result(value: serde_json::Value) -> bool {
    match json_member(value, "result"@) {
        Some(result) => !json_is_null(result),
        None => false,
    }
}

/// Begins the broadcast of a raw transaction: gives the URLs of the
/// backends of the chain, in the pool's order, for the transaction to be
/// posted to each at once. Chain 0 is a chain like any other here.
pub fn forward_raw_transaction(rpc_list: &RpcPool, chain_id: usize) -> (plan: (
    Broadcast,
    Vec<String>,
))
    ensures
        plan.0.results@.len() == 0,
        Seq::new(plan.1@.len(), |i: int| plan.1@[i]@) == urls_of(
            matching(rpc_list@, chain_id as nat),
        ),
{
    let filtered_rpc_list: Vec<&Rpc> = rpc_list.serving(chain_id);
    let mut urls: Vec<String> = Vec::new();
    let mut i: usize = 0;
    while i < filtered_rpc_list.len()
        invariant
            i <= filtered_rpc_list.len(),
            urls@.len() == i,
            forall|k: int| 0 <= k < i ==> (#[trigger] urls@[k])@ == filtered_rpc_list@[k]@.url,
        decreases filtered_rpc_list.len() - i,
    {
        urls.push(filtered_rpc_list[i].url.clone());
        i = i + 1;
    }
    assert(Seq::new(urls@.len(), |i: int| urls@[i]@) =~= urls_of(views_of(filtered_rpc_list@)));
    (Broadcast { results: Vec::new() }, urls)
}

/// What a broadcast keeps of the end of one request: the body that
/// `send_request` gave, or, where the request's task itself failed, the body
/// of the failure `500` with the description of that.
pub open spec fn broadcast_entry(completion: Result<String, String>) -> Seq<char> {
    match completion {
        Ok(body) => body@,
        Err(description) => failure(ErrorCode::InternalServerError, description@),
    }
}

/// Takes the end of one request of a broadcast. The first body with a
/// `result` that is not null is the answer to the client; until then the
/// broadcast waits. A body that is no JSON is reported as such.
pub fn broadcast_response(state: &mut Broadcast, completion: Result<String, String>) -> (step:
    BroadcastStep)
    ensures
        final(state).results@.len() == old(state).results@.len() + 1,
        forall|i: int|
            0 <= i < old(state).results@.len() ==> final(state).results@[i] == old(
                state,
            ).results@[i],
        final(state).results@.last()@ == broadcast_entry(completion),
        match completion {
            Ok(body) => match json_parsed(body@) {
                Some(value) => if carries_result(value) {
                    step matches BroadcastStep::Reply { body: reply } && reply@ == body@
                } else {
                    step is Wait
                },
                None => step is Malformed,
            },
            Err(_) => step is Wait,
        },
{
    match completion {
        Ok(response_string) => {
            state.results.push(response_string.clone());
            match parse(response_string.as_str()) {
                Some(response_json) => {
                    let found: bool = match member(&response_json, "result") {
                        Some(result) => !is_null(result),
                        None => false,
                    };
                    if found {
                        BroadcastStep::Reply { body: response_string }
                    } else {
                        BroadcastStep::Wait
                    }
                },
                None => BroadcastStep::Malformed,
            }
        },
        Err(description) => {
            state.results.push(
                failure_body(ErrorCode::InternalServerError, description.as_str()),
            );
            BroadcastStep::Wait
        },
    }
}

/// Ends a broadcast in which no backend gave a result: the client gets what
/// came back first.
pub fn broadcast_end(state: &Broadcast) -> (body: String)
    requires
        state.results@.len() > 0,
    ensures
        body@ == state.results@[0]@,
{
    state.results[0].clone()
}

/// How a request to add a backend ended.
#[derive(Debug)]
pub enum AddRpcOutcome {
    /// The backend is in the pool at `index`; its block headers are to be
    /// subscribed to at `ws_url`.
    Added { index: usize, ws_url: String, response: String },
    /// A backend with the URL was in the pool already.
    AlreadyAdded { response: String },
    /// The request names no locality.
    InvalidLocation,
}

/// The pool after a request to add a backend: with a new backend at its
/// end, unless the pool has the URL already or the request names no
/// locality.
pub open spec fn added(pool: Seq<RpcView>, request: AddRpcRequestView, limit: nat) -> Seq<
    RpcView,
> {
    if has_url(pool, request.url) {
        pool
    } else {
        match RpcLocation::named(request.rpc_location) {
            Some(location) => pool.push(
                fresh_rpc(request.url, request.ws_url, request.chain_id, location, limit),
            ),
            None => pool,
        }
    }
}

/// Adds a backend to the pool unless the pool has its URL already. The new
/// backend has zeroed telemetry and empty windows of the capacity
/// `stat_vec_size`.
pub fn add_rpc(rpc_list: &mut RpcPool, add_rpc_request: AddRpcRequest, stat_vec_size: usize) -> (outcome:
    AddRpcOutcome)
    ensures
        final(rpc_list)@ == added(old(rpc_list)@, add_rpc_request@, stat_vec_size as nat),
        distinct_urls(old(rpc_list)@) ==> distinct_urls(final(rpc_list)@),
        all_bounded(old(rpc_list)@) ==> all_bounded(final(rpc_list)@),
        if has_url(old(rpc_list)@, add_rpc_request@.url) {
            &&& outcome matches AddRpcOutcome::AlreadyAdded { response }
            &&& response@ == plain_success("Rpc already added"@)
        } else if RpcLocation::named(add_rpc_request@.rpc_location) is None {
            outcome is InvalidLocation
        } else {
            &&& outcome matches AddRpcOutcome::Added { index, ws_url, response }
            &&& index == old(rpc_list)@.len()
            &&& ws_url@ == add_rpc_request@.ws_url
            &&& response@ == plain_success("Rpc added successfully"@)
        },
{
    proof {
        lemma_fixed_texts();
    }
    if rpc_list.contains_url(add_rpc_request.url.as_str()) {
        return AddRpcOutcome::AlreadyAdded { response: success_body("Rpc already added") };
    }
    let rpc_location: RpcLocation = match RpcLocation::parse(
        add_rpc_request.rpc_location.as_str(),
    ) {
        Some(location) => location,
        None => { return AddRpcOutcome::InvalidLocation; },
    };
    let ws_url: String = add_rpc_request.ws_url.clone();
    let rpc: Rpc = Rpc::new(
        add_rpc_request.url,
        add_rpc_request.ws_url,
        add_rpc_request.chain_id,
        rpc_location,
        stat_vec_size,
    );
    let index: usize = rpc_list.append(rpc);
    proof {
        if distinct_urls(old(rpc_list)@) {
            law_add_keeps_urls_distinct(old(rpc_list)@, add_rpc_request@, stat_vec_size as nat);
        }
    }
    AddRpcOutcome::Added { index, ws_url, response: success_body("Rpc added successfully") }
}

/// Adding a backend to a pool in which no two backends share a URL leaves a
/// pool in which none do.
pub proof fn law_add_keeps_urls_distinct(pool: Seq<RpcView>, request: AddRpcRequestView, limit: nat)
    requires
        distinct_urls(pool),
    ensures
        distinct_urls(added(pool, request, limit)),
{
    let after = added(pool, request, limit);
    assert forall|i: int, j: int| 0 <= i < j < after.len() implies (#[trigger] after[i]).url != (
    #[trigger] after[j]).url by {
        if j < pool.len() {
            assert(after[i] == pool[i]);
            assert(after[j] == pool[j]);
        } else {
            assert(after[i] == pool[i]);
            assert(!has_url(pool, request.url));
        }
    }
}

/// A request to add a backend that is made a second time finds the URL in
/// the pool and leaves the pool as it is.
pub proof fn law_add_is_idempotent(pool: Seq<RpcView>, request: AddRpcRequestView, limit: nat)
    ensures
        RpcLocation::named(request.rpc_location) is Some ==> has_url(
            added(pool, request, limit),
            request.url,
        ),
        added(added(pool, request, limit), request, limit) == added(pool, request, limit),
{
    let once = added(pool, request, limit);
    if !has_url(pool, request.url) && RpcLocation::named(request.rpc_location) is Some {
        assert(once[pool.len() as int].url == request.url);
    }
}

} // verus!
