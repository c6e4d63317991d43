//! The decisions of the task that follows one backend's new block headers.

use crate::clock::wall_clock_ms;
use crate::json::{json_member, json_parsed, member, parse};
use crate::rpc::functions::text_member;
use crate::rpc::pool::{all_bounded, distinct_urls, with_tip, RpcPool};
use crate::rpc::types::RpcView;
use crate::text::{hex_quantity, parse_hex_quantity};
use vstd::prelude::*;

verus! {

/// A frame from a backend's WebSocket.
#[derive(Debug)]
pub enum Frame {
    Text(String),
    Ping,
    /// Any frame that is neither text nor a ping.
    Other,
}

/// What the tracker did with a frame.
#[derive(Debug, Clone, Copy, PartialEq, Eq, Structural)]
pub enum Handled {
    /// A new block header: the backend's block tip was written.
    Updated,
    /// Text that announces no new block header: nothing was done.
    Ignored,
    /// A ping: nothing was done.
    Ping,
    /// A frame that is neither text nor a ping: nothing was done.
    Unexpected,
    /// Text that is no JSON, or a new block header whose number or time
    /// cannot be read: nothing was done.
    Malformed,
}

/// The message announces a new block header.
pub open spec fn is_notification(value: serde_json::Value) -> bool {
    text_member(value, "method"@) == Some("eth_subscription"@)
}

/// The text of a field of the block header in `params.result`; empty where
/// there is no such text.
pub open spec fn head_field(value: serde_json::Value, name: Seq<char>) -> Seq<char> {
    match json_member(value, "params"@) {
        Some(params) => match json_member(params, "result"@) {
            Some(result) => match text_member(result, name) {
                Some(text) => text,
                None => Seq::empty(),
            },
            None => Seq::empty(),
        },
        None => Seq::empty(),
    }
}

/// The block tip that a message announces: the number of the block, and the
/// time in its header in milliseconds. The header gives both as hexadecimal
/// quantities, the time in seconds.
pub open spec fn head_in(value: serde_json::Value) -> Option<(u64, u64)> {
    match (
        hex_quantity(head_field(value, "number"@)),
        hex_quantity(head_field(value, "timestamp"@)),
    ) {
        (Some(number), Some(seconds)) => if seconds * 1000 <= u64::MAX {
            Some((number as u64, (seconds * 1000) as u64))
        } else {
            None
        },
        _ => None,
    }
}

/// What the tracker does with a message for the backend at `index` that
/// arrives at the time `now`: a new block header is written to the backend's
/// block tip together with `now`, and anything else leaves the pool as it
/// is.
pub open spec fn message_handled(
    value: serde_json::Value,
    pool: Seq<RpcView>,
    index: int,
    now: u64,
    next_pool: Seq<RpcView>,
    done: Handled,
) -> bool {
    if !is_notification(value) {
        done == Handled::Ignored && next_pool == pool
    } else {
        match head_in(value) {
            Some((number, millis)) => done == Handled::Updated && next_pool == pool.update(
                index,
                with_tip(pool[index], number, millis, now),
            ),
            None => done == Handled::Malformed && next_pool == pool,
        }
    }
}

/// What the tracker does with a frame for the backend at `index` that
/// arrives at the time `now`.
pub open spec fn frame_handled(
    frame: Frame,
    pool: Seq<RpcView>,
    index: int,
    now: u64,
    next_pool: Seq<RpcView>,
    done: Handled,
) -> bool {
    match frame {
        Frame::Text(text) => match json_parsed(text@) {
            Some(value) => message_handled(value, pool, index, now, next_pool, done),
            None => done == Handled::Malformed && next_pool == pool,
        },
        Frame::Ping => done == Handled::Ping && next_pool == pool,
        Frame::Other => done == Handled::Unexpected && next_pool == pool,
    }
}

/// What a message holds for the tracker.
enum Reading {
    Other,
    Unreadable,
    Head(u64, u64),
}

fn read_field(value: &serde_json::Value, name: &str) -> (number: Option<u64>)
    ensures
        match number {
            Some(n) => hex_quantity(head_field(*value, name@)) == Some(n as int),
            None => hex_quantity(head_field(*value, name@)) is None,
        },
{
    let result: Option<&serde_json::Value> = match member(value, "params") {
        Some(params) => member(params, "result"),
        None => None,
    };
    let text: Option<String> = match result {
        Some(inner) => match member(inner, name) {
            Some(field) => match crate::json::text_in(field) {
                Some(t) => Some(t.to_owned()),
                None => None,
            },
            None => None,
        },
        None => None,
    };
    match text {
        Some(t) => parse_hex_quantity(t.as_str()),
        None => {
            let number = parse_hex_quantity("");
            proof {
                reveal_strlit("");
                assert(""@ =~= Seq::<char>::empty());
            }
            number
        },
    }
}

fn read_message(value: &serde_json::Value) -> (reading: Reading)
    ensures
        match reading {
            Reading::Other => !is_notification(*value),
            Reading::Unreadable => is_notification(*value) && head_in(*value) is None,
            Reading::Head(number, millis) => is_notification(*value) && head_in(*value) == Some(
                (number, millis),
            ),
        },
{
    let method: Option<String> = match member(value, "method") {
        Some(inner) => match crate::json::text_in(inner) {
            Some(t) => Some(t.to_owned()),
            None => None,
        },
        None => None,
    };
    let wanted: String = "eth_subscription".to_owned();
    let announced: bool = match method {
        Some(m) => m == wanted,
        None => false,
    };
    if !announced {
        return Reading::Other;
    }
    let block_number: Option<u64> = read_field(value, "number");
    let seconds: Option<u64> = read_field(value, "timestamp");
    match (block_number, seconds) {
        (Some(number), Some(s)) => match s.checked_mul(1000) {
            Some(timestamp) => Reading::Head(number, timestamp),
            None => Reading::Unreadable,
        },
        _ => Reading::Unreadable,
    }
}

/// The tracker of one backend's block tip.
#[derive(Debug)]
pub struct RpcWebSocket {
    /// Where the backend's new block headers are subscribed to.
    pub ws_url: String,
}

impl Default for RpcWebSocket {
    fn default() -> (tracker: Self)
        ensures
            tracker.ws_url@ == Seq::<char>::empty(),
    {
        Self { ws_url: String::new() }
    }
}

impl Clone for RpcWebSocket {
    fn clone(&self) -> (copy: Self)
        ensures
            copy.ws_url@ == self.ws_url@,
    {
        Self { ws_url: self.ws_url.clone() }
    }
}

impl RpcWebSocket {
    /// A tracker for the backend whose WebSocket is at `ws_url`.
    pub fn new(ws_url: String) -> (tracker: Self)
        ensures
            tracker.ws_url == ws_url,
    {
        Self { ws_url }
    }

    /// The frame that subscribes to new block headers.
    pub fn subscribe_to_new_heads(&self) -> (frame: String)
        ensures
            frame@
                == "{\"jsonrpc\":\"2.0\",\"method\":\"eth_subscribe\",\"params\":[\"newHeads\"],\"id\":null}"@,
    {
        "{\"jsonrpc\":\"2.0\",\"method\":\"eth_subscribe\",\"params\":[\"newHeads\"],\"id\":null}".to_owned()
    }

    /// Takes a frame for the backend at `index_rpc` that arrived at the time
    /// `now`.
    pub fn process_message_at(
        &self,
        msg: Frame,
        rpc_list: &mut RpcPool,
        index_rpc: usize,
        now: u64,
    ) -> (done: Handled)
        requires
            index_rpc < old(rpc_list)@.len(),
        ensures
            frame_handled(msg, old(rpc_list)@, index_rpc as int, now, final(rpc_list)@, done),
            distinct_urls(old(rpc_list)@) ==> distinct_urls(final(rpc_list)@),
            all_bounded(old(rpc_list)@) ==> all_bounded(final(rpc_list)@),
    {
        match msg {
            Frame::Text(text) => match parse(text.as_str()) {
                Some(value) => self.process_params_at(&value, rpc_list, index_rpc, now),
                None => Handled::Malformed,
            },
            Frame::Ping => Handled::Ping,
            Frame::Other => Handled::Unexpected,
        }
    }

    /// Takes a frame for the backend at `index_rpc`; the time of a new block
    /// header's arrival is read from the wall clock.
    pub fn process_message(&self, msg: Frame, rpc_list: &mut RpcPool, index_rpc: usize) -> (done:
        Handled)
        requires
            index_rpc < old(rpc_list)@.len(),
        ensures
            exists|now: u64| #[trigger]
                frame_handled(msg, old(rpc_list)@, index_rpc as int, now, final(rpc_list)@, done),
            distinct_urls(old(rpc_list)@) ==> distinct_urls(final(rpc_list)@),
            all_bounded(old(rpc_list)@) ==> all_bounded(final(rpc_list)@),
    {
        match msg {
            Frame::Text(text) => match parse(text.as_str()) {
                Some(value) => {
                    let done = self.process_params(&value, rpc_list, index_rpc);
                    proof {
                        let now = choose|now: u64| #[trigger]
                            message_handled(
                                value,
                                old(rpc_list)@,
                                index_rpc as int,
                                now,
                                final(rpc_list)@,
                                done,
                            );
                        assert(frame_handled(
                            msg,
                            old(rpc_list)@,
                            index_rpc as int,
                            now,
                            final(rpc_list)@,
                            done,
                        ));
                    }
                    done
                },
                None => {
                    assert(frame_handled(
                        msg,
                        old(rpc_list)@,
                        index_rpc as int,
                        0,
                        rpc_list@,
                        Handled::Malformed,
                    ));
                    Handled::Malformed
                },
            },
            Frame::Ping => {
                assert(frame_handled(
                    msg,
                    old(rpc_list)@,
                    index_rpc as int,
                    0,
                    rpc_list@,
                    Handled::Ping,
                ));
                Handled::Ping
            },
            Frame::Other => {
                assert(frame_handled(
                    msg,
                    old(rpc_list)@,
                    index_rpc as int,
                    0,
                    rpc_list@,
                    Handled::Unexpected,
                ));
                Handled::Unexpected
            },
        }
    }

    /// Takes a message for the backend at `index_rpc` that arrived at the
    /// time `now`.
    pub fn process_params_at(
        &self,
        value: &serde_json::Value,
        rpc_list: &mut RpcPool,
        index_rpc: usize,
        now: u64,
    ) -> (done: Handled)
        requires
            index_rpc < old(rpc_list)@.len(),
        ensures
            message_handled(
                *value,
                old(rpc_list)@,
                index_rpc as int,
                now,
                final(rpc_list)@,
                done,
            ),
            distinct_urls(old(rpc_list)@) ==> distinct_urls(final(rpc_list)@),
            all_bounded(old(rpc_list)@) ==> all_bounded(final(rpc_list)@),
    {
        match read_message(value) {
            Reading::Other => Handled::Ignored,
            Reading::Unreadable => Handled::Malformed,
            Reading::Head(block_number, timestamp) => {
                rpc_list.update_tip(index_rpc, block_number, timestamp, now);
                Handled::Updated
            },
        }
    }

    /// Takes a message for the backend at `index_rpc`; the time of a new
    /// block header's arrival is read from the wall clock.
    pub fn process_params(
        &self,
        value: &serde_json::Value,
        rpc_list: &mut RpcPool,
        index_rpc: usize,
    ) -> (done: Handled)
        requires
            index_rpc < old(rpc_list)@.len(),
        ensures
            exists|now: u64| #[trigger]
                message_handled(
                    *value,
                    old(rpc_list)@,
                    index_rpc as int,
                    now,
                    final(rpc_list)@,
                    done,
                ),
            distinct_urls(old(rpc_list)@) ==> distinct_urls(final(rpc_list)@),
            all_bounded(old(rpc_list)@) ==> all_bounded(final(rpc_list)@),
    {
        match read_message(value) {
            Reading::Other => {
                assert(message_handled(
                    *value,
                    old(rpc_list)@,
                    index_rpc as int,
                    0,
                    rpc_list@,
                    Handled::Ignored,
                ));
                Handled::Ignored
            },
            Reading::Unreadable => {
                assert(message_handled(
                    *value,
                    old(rpc_list)@,
                    index_rpc as int,
                    0,
                    rpc_list@,
                    Handled::Malformed,
                ));
                Handled::Malformed
            },
            Reading::Head(block_number, timestamp) => {
                let current_timestamp: u64 = wall_clock_ms();
                rpc_list.update_tip(index_rpc, block_number, timestamp, current_timestamp);
                assert(message_handled(
                    *value,
                    old(rpc_list)@,
                    index_rpc as int,
                    current_timestamp,
                    rpc_list@,
                    Handled::Updated,
                ));
                Handled::Updated
            },
        }
    }
}

} // verus!
