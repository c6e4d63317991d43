//! The data model: rolling windows, backend records and request shapes.

use crate::json::unescaped;
use crate::rpc::errors::{envelope, plain_envelope, write_envelope};
use crate::text::{chars_of, reads_as, reads_as_word};
use std::collections::VecDeque;
use std::str::FromStr;
use vstd::prelude::*;

verus! {

/// What a window holds: its samples, newest first, and its capacity.
pub struct WindowView {
    pub values: Seq<u64>,
    pub limit: nat,
}

/// The samples of a window after `value` was pushed into one that held
/// `values` under the capacity `limit`: a full window loses its oldest sample
/// first, then the new sample goes to the head.
pub open spec fn pushed(values: Seq<u64>, limit: nat, value: u64) -> Seq<u64> {
    if values.len() == limit && values.len() > 0 {
        seq![value] + values.drop_last()
    } else {
        seq![value] + values
    }
}

/// A window with room for at least one sample stays within its capacity
/// when a sample is pushed, and the sample is then its newest.
pub proof fn law_push_keeps_bound(values: Seq<u64>, limit: nat, value: u64)
    requires
        values.len() <= limit,
        limit > 0,
    ensures
        pushed(values, limit, value).len() <= limit,
        pushed(values, limit, value).first() == value,
{
}

/// A bounded rolling window of samples, newest first.
#[derive(Debug)]
pub struct LimitedVecDeque {
    pub deque: VecDeque<u64>,
    pub limit: usize,
}

impl View for LimitedVecDeque {
    type V = WindowView;

    open spec fn view(&self) -> WindowView {
        WindowView { values: self.deque@, limit: self.limit as nat }
    }
}

impl Clone for LimitedVecDeque {
    fn clone(&self) -> (copy: Self)
        ensures
            copy@ == self@,
    {
        let deque = self.deque.clone();
        assert(deque@ =~= self.deque@);
        LimitedVecDeque { deque, limit: self.limit }
    }
}

impl PartialEq for LimitedVecDeque {
    /// Two windows are equal where they hold the same samples under the same
    /// capacity.
    fn eq(&self, other: &Self) -> (same: bool) {
        if self.limit != other.limit || self.deque.len() != other.deque.len() {
            return false;
        }
        let mut i: usize = 0;
        while i < self.deque.len()
            invariant
                i <= self.deque@.len(),
                self.deque@.len() == other.deque@.len(),
                self.limit == other.limit,
                forall|k: int| 0 <= k < i ==> self.deque@[k] == other.deque@[k],
            decreases self.deque@.len() - i,
        {
            if self.deque[i] != other.deque[i] {
                return false;
            }
            i = i + 1;
        }
        assert(self.deque@ =~= other.deque@);
        true
    }
}

impl vstd::std_specs::cmp::PartialEqSpecImpl for LimitedVecDeque {
    open spec fn obeys_eq_spec() -> bool {
        true
    }

    open spec fn eq_spec(&self, other: &Self) -> bool {
        self@ == other@
    }
}

impl LimitedVecDeque {
    /// The window holds no more samples than its capacity.
    pub open spec fn wf(&self) -> bool {
        self.deque@.len() <= self.limit
    }

    /// An empty window of the given capacity.
    pub fn new(limit: usize) -> (window: Self)
        ensures
            window@.values == Seq::<u64>::empty(),
            window@.limit == limit,
            window.wf(),
    {
        LimitedVecDeque { deque: VecDeque::new(), limit }
    }

    /// Puts `value` at the head; a window at capacity drops its oldest sample
    /// first.
    pub fn push(&mut self, value: u64)
        ensures
            final(self)@.limit == old(self)@.limit,
            final(self)@.values == pushed(old(self)@.values, old(self)@.limit, value),
            old(self).wf() && old(self).limit > 0 ==> final(self).wf(),
    {
        if self.deque.len() == self.limit {
            self.deque.pop_back();
        }
        self.deque.push_front(value);
    }

    /// The number of samples held.
    pub fn len(&self) -> (n: usize)
        ensures
            n == self@.values.len(),
    {
        self.deque.len()
    }

    /// The newest sample, if there is one.
    pub fn front(&self) -> (sample: Option<u64>)
        ensures
            sample == (if self@.values.len() > 0 {
                Some(self@.values.first())
            } else {
                None
            }),
    {
        if self.deque.len() > 0 {
            Some(self.deque[0])
        } else {
            None
        }
    }

    /// The oldest sample, if there is one.
    pub fn back(&self) -> (sample: Option<u64>)
        ensures
            sample == (if self@.values.len() > 0 {
                Some(self@.values.last())
            } else {
                None
            }),
    {
        let n = self.deque.len();
        if n > 0 {
            Some(self.deque[n - 1])
        } else {
            None
        }
    }

    /// The samples from newest to oldest.
    pub fn samples(&self) -> (all: Vec<u64>)
        ensures
            all@ == self@.values,
    {
        let mut all: Vec<u64> = Vec::new();
        let n = self.deque.len();
        let mut i: usize = 0;
        while i < n
            invariant
                n == self.deque@.len(),
                i <= n,
                all@ == self.deque@.subrange(0, i as int),
            decreases n - i,
        {
            all.push(self.deque[i]);
            i += 1;
        }
        all
    }
}

/// Where a backend stands: local backends are preferred to external ones.
#[derive(Debug, Clone, Copy, PartialEq, Eq, Structural)]
pub enum RpcLocation {
    Local,
    External,
}

impl RpcLocation {
    /// The locality that a word names: `local` or `external`, in any mix of
    /// ASCII capitals and small letters.
    pub open spec fn named(word: Seq<char>) -> Option<RpcLocation> {
        if reads_as(word, "local"@) {
            Some(RpcLocation::Local)
        } else if reads_as(word, "external"@) {
            Some(RpcLocation::External)
        } else {
            None
        }
    }

    /// Reads a locality from its name.
    pub fn parse(word: &str) -> (location: Option<RpcLocation>)
        ensures
            location == Self::named(word@),
    {
        let letters: Vec<char> = chars_of(word);
        if reads_as_word(&letters, "local") {
            Some(RpcLocation::Local)
        } else if reads_as_word(&letters, "external") {
            Some(RpcLocation::External)
        } else {
            None
        }
    }
}

impl FromStr for RpcLocation {
    type Err = ();

    fn from_str(s: &str) -> (location: Result<Self, Self::Err>)
        ensures
            location == (match RpcLocation::named(s@) {
                Some(l) => Ok::<RpcLocation, ()>(l),
                None => Err(()),
            }),
    {
        match RpcLocation::parse(s) {
            Some(location) => Ok(location),
            None => Err(()),
        }
    }
}

impl Default for RpcLocation {
    fn default() -> (location: Self)
        ensures
            location == RpcLocation::Local,
    {
        RpcLocation::Local
    }
}

/// What a backend record holds.
pub struct RpcView {
    pub url: Seq<char>,
    pub ws_url: Seq<char>,
    pub chain_id: nat,
    pub rpc_location: RpcLocation,
    pub last_block: u64,
    pub last_block_ts: u64,
    pub current_ts: u64,
    pub intra_latencies: WindowView,
    pub srv_latencies: WindowView,
    pub arrivals_ts: WindowView,
}

/// A backend that was just created: no block seen, no sample taken, each
/// window empty with the capacity `limit`.
pub open spec fn fresh_rpc(
    url: Seq<char>,
    ws_url: Seq<char>,
    chain_id: nat,
    rpc_location: RpcLocation,
    limit: nat,
) -> RpcView {
    let empty = WindowView { values: Seq::empty(), limit };
    RpcView {
        url,
        ws_url,
        chain_id,
        rpc_location,
        last_block: 0,
        last_block_ts: 0,
        current_ts: 0,
        intra_latencies: empty,
        srv_latencies: empty,
        arrivals_ts: empty,
    }
}

/// A backend: its identity and its live telemetry. The times are in
/// milliseconds, the latencies in microseconds.
#[derive(Debug)]
pub struct Rpc {
    /// Where requests are posted.
    pub url: String,
    /// Where new block headers are subscribed to.
    pub ws_url: String,
    pub chain_id: usize,
    pub rpc_location: RpcLocation,
    /// The highest block that the backend announced.
    pub last_block: u64,
    /// The time in that block's header.
    pub last_block_ts: u64,
    /// The balancer's clock when that header arrived.
    pub current_ts: u64,
    /// Time from a request's arrival to its being posted to this backend.
    pub intra_latencies: LimitedVecDeque,
    /// Time that this backend took to answer.
    pub srv_latencies: LimitedVecDeque,
    /// The balancer's clock at each answer.
    pub arrivals_ts: LimitedVecDeque,
}

impl View for Rpc {
    type V = RpcView;

    open spec fn view(&self) -> RpcView {
        RpcView {
            url: self.url@,
            ws_url: self.ws_url@,
            chain_id: self.chain_id as nat,
            rpc_location: self.rpc_location,
            last_block: self.last_block,
            last_block_ts: self.last_block_ts,
            current_ts: self.current_ts,
            intra_latencies: self.intra_latencies@,
            srv_latencies: self.srv_latencies@,
            arrivals_ts: self.arrivals_ts@,
        }
    }
}

impl Clone for Rpc {
    fn clone(&self) -> (copy: Self)
        ensures
            copy@ == self@,
    {
        Rpc {
            url: self.url.clone(),
            ws_url: self.ws_url.clone(),
            chain_id: self.chain_id,
            rpc_location: self.rpc_location,
            last_block: self.last_block,
            last_block_ts: self.last_block_ts,
            current_ts: self.current_ts,
            intra_latencies: self.intra_latencies.clone(),
            srv_latencies: self.srv_latencies.clone(),
            arrivals_ts: self.arrivals_ts.clone(),
        }
    }
}

impl PartialEq for Rpc {
    /// Two records are the same backend where their URLs are equal.
    fn eq(&self, other: &Self) -> (same: bool) {
        self.url == other.url
    }
}

impl vstd::std_specs::cmp::PartialEqSpecImpl for Rpc {
    open spec fn obeys_eq_spec() -> bool {
        true
    }

    open spec fn eq_spec(&self, other: &Self) -> bool {
        self.url@ == other.url@
    }
}

impl Default for Rpc {
    fn default() -> (rpc: Self)
        ensures
            rpc@ == fresh_rpc(Seq::empty(), Seq::empty(), 0, RpcLocation::Local, 1000),
    {
        Rpc::new(String::new(), String::new(), 0, RpcLocation::Local, 1000)
    }
}

impl Rpc {
    /// Every window of the record is within its capacity.
    pub open spec fn wf(&self) -> bool {
        &&& self.intra_latencies.wf()
        &&& self.srv_latencies.wf()
        &&& self.arrivals_ts.wf()
    }

    /// A backend with zeroed telemetry and empty windows of the capacity
    /// `stats_vec_size`.
    pub fn new(
        url: String,
        ws_url: String,
        chain_id: usize,
        rpc_location: RpcLocation,
        stats_vec_size: usize,
    ) -> (rpc: Self)
        ensures
            rpc@ == fresh_rpc(
                url@,
                ws_url@,
                chain_id as nat,
                rpc_location,
                stats_vec_size as nat,
            ),
            rpc.wf(),
    {
        Self {
            url,
            ws_url,
            chain_id,
            rpc_location,
            last_block: 0,
            last_block_ts: 0,
            current_ts: 0,
            intra_latencies: LimitedVecDeque::new(stats_vec_size),
            srv_latencies: LimitedVecDeque::new(stats_vec_size),
            arrivals_ts: LimitedVecDeque::new(stats_vec_size),
        }
    }
}

/// What a call holds.
pub struct JsonRpcRequestView {
    pub jsonrpc: Seq<char>,
    pub method: Seq<char>,
    pub params: Seq<Seq<char>>,
    pub id: Seq<char>,
}

/// A JSON-RPC call. `params` holds each parameter, and `id` the identifier,
/// as JSON text.
#[derive(Debug)]
pub struct JsonRpcRequest {
    pub jsonrpc: String,
    pub method: String,
    pub params: Vec<String>,
    pub id: String,
}

impl View for JsonRpcRequest {
    type V = JsonRpcRequestView;

    open spec fn view(&self) -> JsonRpcRequestView {
        JsonRpcRequestView {
            jsonrpc: self.jsonrpc@,
            method: self.method@,
            params: Seq::new(self.params@.len(), |i: int| self.params@[i]@),
            id: self.id@,
        }
    }
}

/// What a request to add a backend holds.
pub struct AddRpcRequestView {
    pub url: Seq<char>,
    pub ws_url: Seq<char>,
    pub chain_id: nat,
    pub rpc_location: Seq<char>,
}

/// A request to add a backend to the pool.
#[derive(Debug)]
pub struct AddRpcRequest {
    pub url: String,
    pub ws_url: String,
    pub chain_id: usize,
    pub rpc_location: String,
}

impl View for AddRpcRequest {
    type V = AddRpcRequestView;

    open spec fn view(&self) -> AddRpcRequestView {
        AddRpcRequestView {
            url: self.url@,
            ws_url: self.ws_url@,
            chain_id: self.chain_id as nat,
            rpc_location: self.rpc_location@,
        }
    }
}

impl Clone for AddRpcRequest {
    fn clone(&self) -> (copy: Self)
        ensures
            copy@ == self@,
    {
        AddRpcRequest {
            url: self.url.clone(),
            ws_url: self.ws_url.clone(),
            chain_id: self.chain_id,
            rpc_location: self.rpc_location.clone(),
        }
    }
}

/// The four shapes of a request body.
#[derive(Debug)]
pub enum RpcRequest {
    JsonRpc(JsonRpcRequest),
    AddRpc(AddRpcRequest),
    JsonRpcArray(Vec<JsonRpcRequest>),
    AddRpcArray(Vec<AddRpcRequest>),
}

/// What a request body holds.
pub enum RpcRequestView {
    JsonRpc(JsonRpcRequestView),
    AddRpc(AddRpcRequestView),
    JsonRpcArray(Seq<JsonRpcRequestView>),
    AddRpcArray(Seq<AddRpcRequestView>),
}

impl View for RpcRequest {
    type V = RpcRequestView;

    open spec fn view(&self) -> RpcRequestView {
        match *self {
            RpcRequest::JsonRpc(call) => RpcRequestView::JsonRpc(call@),
            RpcRequest::AddRpc(add) => RpcRequestView::AddRpc(add@),
            RpcRequest::JsonRpcArray(calls) => RpcRequestView::JsonRpcArray(
                Seq::new(calls@.len(), |i: int| calls@[i]@),
            ),
            RpcRequest::AddRpcArray(adds) => RpcRequestView::AddRpcArray(
                Seq::new(adds@.len(), |i: int| adds@[i]@),
            ),
        }
    }
}

/// The envelope that answers a control operation: `id` is 1, `jsonrpc` is
/// `2.0`.
#[derive(Debug)]
pub struct JsonRpcResponse {
    pub id: Option<u64>,
    pub jsonrpc: String,
    pub result: String,
}

impl JsonRpcResponse {
    /// The envelope of the result.
    pub fn new(result: String) -> (response: Self)
        ensures
            response.id == Some(1u64),
            response.jsonrpc@ == "2.0"@,
            response.result == result,
    {
        Self { id: Some(1), jsonrpc: "2.0".to_owned(), result }
    }

    /// The envelope as JSON text.
    pub fn to_json(&self) -> (text: String)
        ensures
            text@ == envelope(self.id, self.jsonrpc@, "result"@, self.result@),
            unescaped(self.jsonrpc@) && unescaped(self.result@) ==> text@ == plain_envelope(
                self.id,
                self.jsonrpc@,
                "result"@,
                self.result@,
            ),
    {
        write_envelope(self.id, self.jsonrpc.as_str(), "result", self.result.as_str())
    }
}

impl From<String> for JsonRpcResponse {
    fn from(result: String) -> (response: Self)
        ensures
            response.id == Some(1u64),
            response.jsonrpc@ == "2.0"@,
            response.result == result,
    {
        Self::new(result)
    }
}

impl vstd::std_specs::convert::FromSpecImpl<String> for JsonRpcResponse {
    /// The envelope holds a `String` of its own, which no specification can
    /// build: what `from` returns is stated in its own `ensures`.
    open spec fn obeys_from_spec() -> bool {
        false
    }

    open spec fn from_spec(result: String) -> Self {
        arbitrary()
    }
}

} // verus!
