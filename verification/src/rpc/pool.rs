//! The pool of backends: an append-only list of records, read through
//! snapshots and written by position.

use crate::rpc::types::{pushed, Rpc, RpcView, WindowView};
use crate::sort::functions::{sortable, views_of};
use crate::sort::rate::arrivals_in_order;
use crate::sort::types::Algo;
use vstd::prelude::*;

verus! {

/// The backends of the balancer, in the order in which they were added.
#[derive(Debug)]
pub struct RpcPool {
    pub rpcs: Vec<Rpc>,
}

impl View for RpcPool {
    type V = Seq<RpcView>;

    open spec fn view(&self) -> Seq<RpcView> {
        Seq::new(self.rpcs@.len(), |i: int| self.rpcs@[i]@)
    }
}

/// What each record of a list holds, in the order of the list.
pub open spec fn records_of(list: Seq<Rpc>) -> Seq<RpcView> {
    Seq::new(list.len(), |i: int| list[i]@)
}

/// Some backend of the pool has the URL.
pub open spec fn has_url(pool: Seq<RpcView>, url: Seq<char>) -> bool {
    exists|i: int| 0 <= i < pool.len() && (#[trigger] pool[i]).url == url
}

/// No two backends of the pool have the same URL.
pub open spec fn distinct_urls(pool: Seq<RpcView>) -> bool {
    forall|i: int, j: int|
        0 <= i < j < pool.len() ==> (#[trigger] pool[i]).url != (#[trigger] pool[j]).url
}

/// Place `i` holds the first backend of the pool with the URL.
pub open spec fn first_with_url(pool: Seq<RpcView>, url: Seq<char>, i: int) -> bool {
    &&& 0 <= i < pool.len()
    &&& pool[i].url == url
    &&& forall|k: int| 0 <= k < i ==> (#[trigger] pool[k]).url != url
}

/// The backends of the pool that serve the chain, in the pool's order.
pub open spec fn matching(pool: Seq<RpcView>, chain_id: nat) -> Seq<RpcView> {
    pool.filter(|rpc: RpcView| rpc.chain_id == chain_id)
}

/// The record after a new block header: only the three fields of the block
/// tip change.
pub open spec fn with_tip(
    rpc: RpcView,
    last_block: u64,
    last_block_ts: u64,
    current_ts: u64,
) -> RpcView {
    RpcView { last_block, last_block_ts, current_ts, ..rpc }
}

/// A window after one more sample.
pub open spec fn with_sample(window: WindowView, value: u64) -> WindowView {
    WindowView { values: pushed(window.values, window.limit, value), limit: window.limit }
}

/// The record after a forwarded request: each of the three windows has one
/// more sample at its head, and nothing else changes.
pub open spec fn with_forward(rpc: RpcView, intra: u64, srv: u64, arrival: u64) -> RpcView {
    RpcView {
        intra_latencies: with_sample(rpc.intra_latencies, intra),
        srv_latencies: with_sample(rpc.srv_latencies, srv),
        arrivals_ts: with_sample(rpc.arrivals_ts, arrival),
        ..rpc
    }
}

/// Each window of the record is within its capacity.
pub open spec fn bounded(rpc: RpcView) -> bool {
    &&& rpc.intra_latencies.values.len() <= rpc.intra_latencies.limit
    &&& rpc.srv_latencies.values.len() <= rpc.srv_latencies.limit
    &&& rpc.arrivals_ts.values.len() <= rpc.arrivals_ts.limit
}

/// Each window of the record has room for at least one sample.
pub open spec fn roomy(rpc: RpcView) -> bool {
    &&& rpc.intra_latencies.limit > 0
    &&& rpc.srv_latencies.limit > 0
    &&& rpc.arrivals_ts.limit > 0
}

/// Every window of every backend of the pool is within its capacity.
pub open spec fn all_bounded(pool: Seq<RpcView>) -> bool {
    forall|i: int| 0 <= i < pool.len() ==> bounded(#[trigger] pool[i])
}

/// Every window of every backend of the pool has room for at least one
/// sample.
pub open spec fn all_roomy(pool: Seq<RpcView>) -> bool {
    forall|i: int| 0 <= i < pool.len() ==> roomy(#[trigger] pool[i])
}

/// The URLs of the backends, in the order of the pool.
pub open spec fn urls_of(pool: Seq<RpcView>) -> Seq<Seq<char>> {
    Seq::new(pool.len(), |i: int| pool[i].url)
}

/// A forwarded request leaves each window within its capacity, where the
/// windows have room for at least one sample.
pub proof fn law_forward_keeps_bound(rpc: RpcView, intra: u64, srv: u64, arrival: u64)
    requires
        bounded(rpc),
        roomy(rpc),
    ensures
        bounded(with_forward(rpc, intra, srv, arrival)),
        roomy(with_forward(rpc, intra, srv, arrival)),
{
}

/// After a forwarded request the newest sample of each window is that
/// request's.
pub proof fn law_forward_is_newest(rpc: RpcView, intra: u64, srv: u64, arrival: u64)
    ensures
        with_forward(rpc, intra, srv, arrival).intra_latencies.values.first() == intra,
        with_forward(rpc, intra, srv, arrival).srv_latencies.values.first() == srv,
        with_forward(rpc, intra, srv, arrival).arrivals_ts.values.first() == arrival,
{
}

/// A new block header changes no window and no URL.
pub proof fn law_tip_keeps_windows(rpc: RpcView, last_block: u64, last_block_ts: u64, current_ts: u64)
    ensures
        bounded(rpc) ==> bounded(with_tip(rpc, last_block, last_block_ts, current_ts)),
        with_tip(rpc, last_block, last_block_ts, current_ts).url == rpc.url,
        with_tip(rpc, last_block, last_block_ts, current_ts).last_block == last_block,
        with_tip(rpc, last_block, last_block_ts, current_ts).last_block_ts == last_block_ts,
        with_tip(rpc, last_block, last_block_ts, current_ts).current_ts == current_ts,
{
}

/// A pool whose backends have the URLs of a pool without two equal URLs, in
/// the same places, has no two equal URLs either.
pub proof fn lemma_same_urls(before: Seq<RpcView>, after: Seq<RpcView>)
    requires
        urls_of(after) == urls_of(before),
    ensures
        distinct_urls(before) ==> distinct_urls(after),
{
    if distinct_urls(before) {
        assert forall|i: int, j: int| 0 <= i < j < after.len() implies (#[trigger] after[i]).url != (
        #[trigger] after[j]).url by {
            assert(after.len() == urls_of(after).len());
            assert(before.len() == urls_of(before).len());
            assert(urls_of(after)[i] == after[i].url);
            assert(urls_of(after)[j] == after[j].url);
            assert(urls_of(before)[i] == before[i].url);
            assert(urls_of(before)[j] == before[j].url);
        }
    }
}

impl RpcPool {
    /// An empty pool.
    pub fn new() -> (pool: Self)
        ensures
            pool@ == Seq::<RpcView>::empty(),
    {
        let pool = RpcPool { rpcs: Vec::new() };
        assert(pool@ =~= Seq::<RpcView>::empty());
        pool
    }

    /// The number of backends.
    pub fn len(&self) -> (n: usize)
        ensures
            n == self@.len(),
    {
        self.rpcs.len()
    }

    /// Tells whether a backend of the pool has the URL.
    pub fn contains_url(&self, url: &str) -> (found: bool)
        ensures
            found == has_url(self@, url@),
    {
        self.position_of(url).is_some()
    }

    /// The place of the first backend with the URL.
    pub fn position_of(&self, url: &str) -> (place: Option<usize>)
        ensures
            match place {
                Some(i) => first_with_url(self@, url@, i as int),
                None => !has_url(self@, url@),
            },
    {
        let wanted: String = url.to_owned();
        let mut i: usize = 0;
        while i < self.rpcs.len()
            invariant
                i <= self.rpcs.len(),
                wanted@ == url@,
                forall|k: int| 0 <= k < i ==> (#[trigger] self@[k]).url != url@,
            decreases self.rpcs.len() - i,
        {
            if self.rpcs[i].url == wanted {
                assert(self@[i as int].url == url@);
                return Some(i);
            }
            assert(self@[i as int].url != url@);
            i = i + 1;
        }
        None
    }

    /// Tells whether no two backends have the same URL.
    pub fn has_distinct_urls(&self) -> (distinct: bool)
        ensures
            distinct == distinct_urls(self@),
    {
        let mut j: usize = 0;
        while j < self.rpcs.len()
            invariant
                j <= self.rpcs.len(),
                forall|a: int, b: int|
                    0 <= a < b < j ==> (#[trigger] self@[a]).url != (#[trigger] self@[b]).url,
            decreases self.rpcs.len() - j,
        {
            let mut i: usize = 0;
            while i < j
                invariant
                    i <= j < self.rpcs.len(),
                    forall|a: int| 0 <= a < i ==> (#[trigger] self@[a]).url != self@[j as int].url,
                decreases j - i,
            {
                if self.rpcs[i].url == self.rpcs[j].url {
                    assert(self@[i as int].url == self@[j as int].url);
                    return false;
                }
                assert(self@[i as int].url != self@[j as int].url);
                i = i + 1;
            }
            j = j + 1;
        }
        true
    }

    /// Tells whether the algorithm can order the backends that serve the
    /// chain: under `RoundRobin`, whether the arrival times of none of them
    /// run backwards.
    pub fn is_sortable_for(&self, chain_id: usize, algo: Algo) -> (good: bool)
        ensures
            good == sortable(algo, matching(self@, chain_id as nat)),
    {
        if algo != Algo::RoundRobin {
            return true;
        }
        let found: Vec<&Rpc> = self.serving(chain_id);
        let mut i: usize = 0;
        while i < found.len()
            invariant
                i <= found.len(),
                algo == Algo::RoundRobin,
                views_of(found@) == matching(self@, chain_id as nat),
                forall|k: int|
                    0 <= k < i ==> arrivals_in_order(
                        (#[trigger] views_of(found@)[k]).arrivals_ts.values,
                    ),
            decreases found.len() - i,
        {
            let arrivals = &found[i].arrivals_ts;
            let n: usize = arrivals.len();
            if n >= 2 && arrivals.deque[0] < arrivals.deque[n - 1] {
                assert(!arrivals_in_order(views_of(found@)[i as int].arrivals_ts.values));
                return false;
            }
            assert(arrivals_in_order(views_of(found@)[i as int].arrivals_ts.values));
            i = i + 1;
        }
        true
    }

    /// A copy of the backends as they are now.
    pub fn snapshot(&self) -> (copy: Vec<Rpc>)
        ensures
            records_of(copy@) == self@,
    {
        let mut copy: Vec<Rpc> = Vec::new();
        let mut i: usize = 0;
        while i < self.rpcs.len()
            invariant
                i <= self.rpcs.len(),
                copy@.len() == i,
                forall|k: int| 0 <= k < i ==> (#[trigger] copy@[k])@ == self.rpcs@[k]@,
            decreases self.rpcs.len() - i,
        {
            copy.push(self.rpcs[i].clone());
            i = i + 1;
        }
        assert(records_of(copy@) =~= self@);
        copy
    }

    /// The backends that serve the chain, in the pool's order.
    pub fn serving<'a>(&'a self, chain_id: usize) -> (found: Vec<&'a Rpc>)
        ensures
            views_of(found@) == matching(self@, chain_id as nat),
    {
        let mut found: Vec<&'a Rpc> = Vec::new();
        let mut i: usize = 0;
        proof {
            reveal(Seq::filter);
            assert(self@.subrange(0, 0) =~= Seq::<RpcView>::empty());
            assert(views_of(found@) =~= matching(self@.subrange(0, 0), chain_id as nat));
        }
        while i < self.rpcs.len()
            invariant
                i <= self.rpcs.len(),
                views_of(found@) == matching(self@.subrange(0, i as int), chain_id as nat),
            decreases self.rpcs.len() - i,
        {
            let ghost before = found@;
            let rpc: &'a Rpc = &self.rpcs[i];
            proof {
                reveal(Seq::filter);
                let longer = self@.subrange(0, i + 1);
                assert(longer.drop_last() =~= self@.subrange(0, i as int));
                assert(longer.last() == rpc@);
            }
            if rpc.chain_id == chain_id {
                found.push(rpc);
                assert(views_of(found@) =~= views_of(before).push(rpc@));
            }
            i = i + 1;
        }
        assert(self@.subrange(0, i as int) =~= self@);
        found
    }

    /// A copy of the backends that serve the chain, in the pool's order.
    pub fn matching_chain(&self, chain_id: usize) -> (copy: Vec<Rpc>)
        ensures
            records_of(copy@) == matching(self@, chain_id as nat),
    {
        let found = self.serving(chain_id);
        let copy = copies_of(&found);
        assert(records_of(copy@) =~= views_of(found@));
        copy
    }

    /// Adds a backend at the end and gives its place.
    pub fn append(&mut self, rpc: Rpc) -> (place: usize)
        ensures
            final(self)@ == old(self)@.push(rpc@),
            place == old(self)@.len(),
            distinct_urls(old(self)@) && !has_url(old(self)@, rpc@.url) ==> distinct_urls(
                final(self)@,
            ),
            all_bounded(old(self)@) && bounded(rpc@) ==> all_bounded(final(self)@),
    {
        let place: usize = self.rpcs.len();
        self.rpcs.push(rpc);
        assert(self@ =~= old(self)@.push(rpc@));
        proof {
            let before = old(self)@;
            let after = self@;
            if distinct_urls(before) && !has_url(before, rpc@.url) {
                assert forall|i: int, j: int| 0 <= i < j < after.len() implies (
                #[trigger] after[i]).url != (#[trigger] after[j]).url by {
                    assert(after[i] == before[i]);
                    if j < before.len() {
                        assert(after[j] == before[j]);
                    }
                }
            }
            if all_bounded(before) && bounded(rpc@) {
                assert forall|i: int| 0 <= i < after.len() implies bounded(#[trigger] after[i]) by {
                    if i < before.len() {
                        assert(after[i] == before[i]);
                    }
                }
            }
        }
        place
    }

    /// Writes the block tip of the backend at `index`.
    pub fn update_tip(
        &mut self,
        index: usize,
        last_block: u64,
        last_block_ts: u64,
        current_ts: u64,
    )
        requires
            index < old(self)@.len(),
        ensures
            final(self)@ == old(self)@.update(
                index as int,
                with_tip(old(self)@[index as int], last_block, last_block_ts, current_ts),
            ),
            distinct_urls(old(self)@) ==> distinct_urls(final(self)@),
            all_bounded(old(self)@) ==> all_bounded(final(self)@),
    {
        let rpc: &mut Rpc = &mut self.rpcs[index];
        rpc.last_block = last_block;
        rpc.last_block_ts = last_block_ts;
        rpc.current_ts = current_ts;
        assert(self@ =~= old(self)@.update(
            index as int,
            with_tip(old(self)@[index as int], last_block, last_block_ts, current_ts),
        ));
        proof {
            let before = old(self)@;
            let after = self@;
            assert(urls_of(after) =~= urls_of(before));
            lemma_same_urls(before, after);
            if all_bounded(before) {
                assert forall|i: int| 0 <= i < after.len() implies bounded(#[trigger] after[i]) by {
                    assert(bounded(before[i]));
                }
            }
        }
    }

    /// Records a forwarded request with the first backend that has the URL:
    /// the time before the request was posted, the time that the backend
    /// took, and the time of the answer. Gives the place of that backend;
    /// with no such backend the pool stays as it is.
    pub fn record_forward(
        &mut self,
        url: &str,
        intra_latency: u64,
        total_latency: u64,
        arrival: u64,
    ) -> (place: Option<usize>)
        requires
            intra_latency <= total_latency,
        ensures
            match place {
                Some(i) => first_with_url(old(self)@, url@, i as int) && final(self)@ == old(
                    self,
                )@.update(
                    i as int,
                    with_forward(
                        old(self)@[i as int],
                        intra_latency,
                        (total_latency - intra_latency) as u64,
                        arrival,
                    ),
                ),
                None => !has_url(old(self)@, url@) && final(self)@ == old(self)@,
            },
            distinct_urls(old(self)@) ==> distinct_urls(final(self)@),
            all_bounded(old(self)@) && all_roomy(old(self)@) ==> all_bounded(final(self)@)
                && all_roomy(final(self)@),
    {
        let place: Option<usize> = self.position_of(url);
        match place {
            Some(index) => {
                let rpc: &mut Rpc = &mut self.rpcs[index];
                rpc.intra_latencies.push(intra_latency);
                rpc.srv_latencies.push(total_latency - intra_latency);
                rpc.arrivals_ts.push(arrival);
                assert(self@ =~= old(self)@.update(
                    index as int,
                    with_forward(
                        old(self)@[index as int],
                        intra_latency,
                        (total_latency - intra_latency) as u64,
                        arrival,
                    ),
                ));
                proof {
                    let before = old(self)@;
                    let after = self@;
                    assert(urls_of(after) =~= urls_of(before));
                    lemma_same_urls(before, after);
                    if all_bounded(before) && all_roomy(before) {
                        assert forall|i: int| 0 <= i < after.len() implies bounded(
                            #[trigger] after[i],
                        ) && roomy(after[i]) by {
                            assert(bounded(before[i]));
                            assert(roomy(before[i]));
                        }
                    }
                }
            },
            None => {},
        }
        place
    }
}

/// A copy of each backend of the list, in the order of the list.
pub fn copies_of(list: &Vec<&Rpc>) -> (copy: Vec<Rpc>)
    ensures
        records_of(copy@) == views_of(list@),
{
    let mut copy: Vec<Rpc> = Vec::new();
    let mut i: usize = 0;
    while i < list.len()
        invariant
            i <= list.len(),
            copy@.len() == i,
            forall|k: int| 0 <= k < i ==> (#[trigger] copy@[k])@ == list@[k]@,
        decreases list.len() - i,
    {
        copy.push(list[i].clone());
        i = i + 1;
    }
    assert(records_of(copy@) =~= views_of(list@));
    copy
}

} // verus!
