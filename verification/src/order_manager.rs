//! Order manager: maker-order preparation, rate limiting and tracking.
//!
//! Placement is a two-step protocol driven by the engine: the manager
//! first gates a request against the rolling sixty-second budget and the
//! minimum inter-order interval and hands back a prepared order; once
//! the venue answers, the acceptance is recorded, which consumes budget
//! and tracks the open order.  Rejections consume no budget.
//!
//! The full sequence of recorded placement times is kept as ghost state;
//! the manager's invariant proves that no rolling sixty-second window
//! ever holds more than the configured maximum of placements.

use vstd::prelude::*;

use crate::config::AppConfig;
use crate::fixed::SCALE;
use crate::ports::OrderPlacement;
use crate::trade::{Order, OrderType, TradeSide};

verus! {

/// Length of the rate-limit window in milliseconds.
pub const RATE_WINDOW_MS: u64 = 60_000;

/// Every pair of entries of `h` is ordered.
pub open spec fn spec_sorted(h: Seq<int>) -> bool {
    forall|i: int, j: int| 0 <= i <= j < h.len() ==> h[i] <= h[j]
}

/// No window of under sixty seconds holds more than `max` entries.
pub open spec fn spec_rate_limited(h: Seq<int>, max: int) -> bool {
    forall|i: int, j: int|
        0 <= i <= j < h.len() && h[j] - h[i] < RATE_WINDOW_MS ==> j - i + 1 <= max
}

/// How many entries of `h` lie within the window ending at `now`.
pub open spec fn spec_window_count(h: Seq<int>, now: int) -> int
    decreases h.len(),
{
    if h.len() == 0 {
        0
    } else {
        spec_window_count(h.drop_last(), now)
            + if now - h.last() < RATE_WINDOW_MS {
                1int
            } else {
                0int
            }
    }
}

/// Window counts add over concatenation.
proof fn lemma_window_count_concat(a: Seq<int>, b: Seq<int>, now: int)
    ensures
        spec_window_count(a + b, now) == spec_window_count(a, now) + spec_window_count(b, now),
    decreases b.len(),
{
    if b.len() == 0 {
        assert(a + b =~= a);
    } else {
        lemma_window_count_concat(a, b.drop_last(), now);
        assert((a + b).drop_last() =~= a + b.drop_last());
        assert((a + b).last() == b.last());
    }
}

/// A sequence with no entry in the window counts zero; one with every
/// entry in the window counts its length.
proof fn lemma_window_count_uniform(h: Seq<int>, now: int)
    ensures
        (forall|i: int| 0 <= i < h.len() ==> now - h[i] >= RATE_WINDOW_MS)
            ==> spec_window_count(h, now) == 0,
        (forall|i: int| 0 <= i < h.len() ==> now - h[i] < RATE_WINDOW_MS)
            ==> spec_window_count(h, now) == h.len(),
    decreases h.len(),
{
    if h.len() > 0 {
        lemma_window_count_uniform(h.drop_last(), now);
    }
}

/// In a sorted history, every entry from a window member on is also a
/// window member, so the window count covers that whole tail.
proof fn lemma_window_tail(h: Seq<int>, now: int, i: int)
    requires
        spec_sorted(h),
        0 <= i < h.len(),
        now - h[i] < RATE_WINDOW_MS,
    ensures
        spec_window_count(h, now) >= h.len() - i,
    decreases h.len(),
{
    if i == h.len() - 1 {
        lemma_window_count_nonneg(h.drop_last(), now);
    } else {
        assert(h.drop_last()[i] == h[i]);
        lemma_window_tail(h.drop_last(), now, i);
    }
}

/// Window counts are never negative.
proof fn lemma_window_count_nonneg(h: Seq<int>, now: int)
    ensures
        spec_window_count(h, now) >= 0,
    decreases h.len(),
{
    if h.len() > 0 {
        lemma_window_count_nonneg(h.drop_last(), now);
    }
}

/// As the clock advances over a fixed history, entries only fall out of
/// the window: the count never grows.
pub proof fn lemma_window_count_clock(h: Seq<int>, now1: int, now2: int)
    requires
        now1 <= now2,
    ensures
        spec_window_count(h, now2) <= spec_window_count(h, now1),
    decreases h.len(),
{
    if h.len() > 0 {
        lemma_window_count_clock(h.drop_last(), now1, now2);
    }
}

/// Why a placement request was not submitted, or the prepared order.
#[derive(Debug, Clone)]
pub enum PlacementDecision {
    /// The rolling sixty-second budget is exhausted.
    SkippedRate,
    /// The minimum inter-order interval has not elapsed.
    SkippedInterval,
    /// The gates passed; this order may be sent to the venue.
    Submit(Order),
}

/// Manages maker-order placement with rate limiting and open-order
/// tracking.
pub struct OrderManager {
    /// Tracked open orders, keyed by venue order id; keys unique.
    pub open_orders: Vec<(String, Order)>,
    /// Placement times still inside the rate window, oldest first.
    pub order_timestamps: Vec<u64>,
    /// Maximum placements per rolling minute.
    pub max_orders_per_minute: u32,
    /// Minimum interval between placements, milliseconds.
    pub min_interval_ms: u64,
    /// Time of the most recent recorded placement.
    pub last_order_time: Option<u64>,
    /// Placement times already pruned from the live vector.
    pub pruned: Ghost<Seq<int>>,
    /// The latest clock value any operation has seen.
    pub seen: Ghost<int>,
}

impl OrderManager {
    /// The live timestamps as mathematical integers.
    pub open spec fn stamps(self) -> Seq<int> {
        Seq::new(self.order_timestamps@.len(), |i: int| self.order_timestamps@[i] as int)
    }

    /// The full sequence of recorded placement times, oldest first.
    pub open spec fn history(self) -> Seq<int> {
        self.pruned@ + self.stamps()
    }

    /// The manager's invariant: a positive budget, a sorted history
    /// below the clock bound that satisfies the rate-window law, pruned
    /// entries old enough never to re-enter a window, and a last-time
    /// marker matching the history.
    pub open spec fn well_formed(self) -> bool {
        &&& self.max_orders_per_minute >= 1
        &&& spec_sorted(self.history())
        &&& spec_rate_limited(self.history(), self.max_orders_per_minute as int)
        &&& forall|i: int| 0 <= i < self.history().len() ==> self.history()[i] <= self.seen@
        &&& forall|i: int|
            0 <= i < self.pruned@.len() ==> self.pruned@[i] + RATE_WINDOW_MS <= self.seen@
        &&& match self.last_order_time {
            Some(t) => self.history().len() > 0 && self.history().last() == t,
            None => self.history().len() == 0,
        }
        &&& forall|i: int, j: int|
            0 <= i < j < self.open_orders@.len()
                ==> self.open_orders@[i].0@ != self.open_orders@[j].0@
    }

    /// Create a manager from the configured rate limits, with no open
    /// orders and an empty history.
    pub fn new(config: &AppConfig) -> (r: OrderManager)
        requires
            config.rate_limits.max_orders_per_minute >= 1,
        ensures
            r.well_formed(),
            r.max_orders_per_minute == config.rate_limits.max_orders_per_minute,
            r.min_interval_ms == config.rate_limits.min_interval_ms,
            r.open_orders@.len() == 0,
            r.history().len() == 0,
            r.seen@ == 0,
            r.last_order_time is None,
    {
        let r = OrderManager {
            open_orders: Vec::new(),
            order_timestamps: Vec::new(),
            max_orders_per_minute: config.rate_limits.max_orders_per_minute,
            min_interval_ms: config.rate_limits.min_interval_ms,
            last_order_time: None,
            pruned: Ghost(Seq::empty()),
            seen: Ghost(0),
        };
        proof {
            assert(r.history() =~= Seq::<int>::empty());
        }
        r
    }

    /// Drop live timestamps that have left the rate window.
    fn prune(&mut self, now_ms: u64)
        requires
            old(self).well_formed(),
            old(self).seen@ <= now_ms,
        ensures
            final(self).well_formed(),
            final(self).history() == old(self).history(),
            final(self).open_orders == old(self).open_orders,
            final(self).max_orders_per_minute == old(self).max_orders_per_minute,
            final(self).min_interval_ms == old(self).min_interval_ms,
            final(self).last_order_time == old(self).last_order_time,
            final(self).seen@ == now_ms,
            final(self).stamps().len() == spec_window_count(final(self).history(), now_ms as int),
            forall|i: int|
                0 <= i < final(self).stamps().len()
                    ==> now_ms - final(self).stamps()[i] < RATE_WINDOW_MS,
    {
        proof {
            self.seen = Ghost(now_ms as int);
        }
        while self.order_timestamps.len() > 0
            && (self.order_timestamps[0] as u128) + (RATE_WINDOW_MS as u128) <= (now_ms as u128)
            invariant
                self.well_formed(),
                self.seen@ == now_ms,
                self.history() == old(self).history(),
                self.open_orders == old(self).open_orders,
                self.max_orders_per_minute == old(self).max_orders_per_minute,
                self.min_interval_ms == old(self).min_interval_ms,
                self.last_order_time == old(self).last_order_time,
            decreases self.order_timestamps@.len(),
        {
            let ghost pre = *self;
            let dropped: u64 = self.order_timestamps.remove(0);
            proof {
                self.pruned = Ghost(self.pruned@.push(dropped as int));
                assert(self.history() =~= pre.history());
                assert(pre.stamps()[0] == dropped);
                assert forall|i: int| 0 <= i < self.stamps().len() implies
                    self.stamps()[i] == pre.stamps()[i + 1] by {
                }
            }
        }
        proof {
            let h = self.history();
            let p = self.pruned@;
            let s = self.stamps();
            assert forall|i: int| 0 <= i < s.len() implies
                now_ms - s[i] < RATE_WINDOW_MS by {
                if s.len() > 0 {
                    assert(s[0] == h[p.len() as int]);
                    assert(h[p.len() as int] <= h[p.len() + i]);
                }
            }
            lemma_window_count_concat(p, s, now_ms as int);
            lemma_window_count_uniform(p, now_ms as int);
            lemma_window_count_uniform(s, now_ms as int);
            assert(spec_window_count(h, now_ms as int) == s.len());
        }
    }

    /// Screen a maker-order request at `now_ms`.  Returns the prepared
    /// GTC post-only order exactly when the rolling window still has
    /// budget and the minimum interval since the last placement has
    /// elapsed; otherwise says which limit blocked it.  Nothing is
    /// recorded until the venue accepts.
    pub fn place_maker_order(
        &mut self,
        token_id: &String,
        price: u64,
        size: u64,
        is_buy: bool,
        now_ms: u64,
    ) -> (r: PlacementDecision)
        requires
            old(self).well_formed(),
            old(self).seen@ <= now_ms,
            0 < price < SCALE,
            size > 0,
        ensures
            final(self).well_formed(),
            final(self).history() == old(self).history(),
            final(self).open_orders == old(self).open_orders,
            final(self).max_orders_per_minute == old(self).max_orders_per_minute,
            final(self).min_interval_ms == old(self).min_interval_ms,
            final(self).last_order_time == old(self).last_order_time,
            final(self).seen@ == now_ms,
            ({
                let budget_free = spec_window_count(final(self).history(), now_ms as int)
                    < final(self).max_orders_per_minute;
                let interval_ok = match final(self).last_order_time {
                    Some(t) => now_ms - t >= final(self).min_interval_ms,
                    None => true,
                };
                match r {
                    PlacementDecision::SkippedRate => !budget_free,
                    PlacementDecision::SkippedInterval => budget_free && !interval_ok,
                    PlacementDecision::Submit(order) => budget_free && interval_ok
                        && order.id@ == Seq::<char>::empty()
                        && order.token_id == token_id
                        && order.side == (if is_buy {
                            TradeSide::Buy
                        } else {
                            TradeSide::Sell
                        })
                        && order.price == price
                        && order.size == size
                        && order.order_type == OrderType::Gtc
                        && order.post_only
                        && order.timestamp_ms == now_ms,
                }
            }),
    {
        self.prune(now_ms);
        if self.order_timestamps.len() >= self.max_orders_per_minute as usize {
            return PlacementDecision::SkippedRate;
        }
        match self.last_order_time {
            Some(t) => {
                if now_ms - t < self.min_interval_ms {
                    return PlacementDecision::SkippedInterval;
                }
            },
            None => {},
        }
        let side = if is_buy {
            TradeSide::Buy
        } else {
            TradeSide::Sell
        };
        PlacementDecision::Submit(
            Order {
                id: String::new(),
                token_id: token_id.clone(),
                side,
                price,
                size,
                order_type: OrderType::Gtc,
                post_only: true,
                timestamp_ms: now_ms,
            },
        )
    }

    /// Record the venue's answer to a submitted order.  An acceptance
    /// consumes rate budget, stamps the clock and tracks the open order
    /// under its assigned id; a rejection changes nothing.  The budget
    /// must still be free at `now_ms`; with a monotone clock that
    /// follows from an earlier positive placement decision.
    pub fn on_placement(&mut self, order: &Order, placement: &OrderPlacement, now_ms: u64)
        requires
            old(self).well_formed(),
            old(self).seen@ <= now_ms,
            placement.accepted ==> spec_window_count(old(self).history(), now_ms as int)
                < old(self).max_orders_per_minute,
        ensures
            final(self).well_formed(),
            final(self).max_orders_per_minute == old(self).max_orders_per_minute,
            final(self).min_interval_ms == old(self).min_interval_ms,
            final(self).seen@ <= now_ms,
            old(self).seen@ <= final(self).seen@,
            placement.accepted ==> final(self).history() == old(self).history().push(
                now_ms as int,
            ) && final(self).last_order_time == Some(now_ms),
            !placement.accepted ==> final(self).history() == old(self).history()
                && final(self).open_orders == old(self).open_orders,
            placement.accepted ==> exists|i: int|
                0 <= i < final(self).open_orders@.len()
                    && final(self).open_orders@[i].0@ == placement.order_id@
                    && final(self).open_orders@[i].1 == (Order {
                    id: placement.order_id,
                    ..*order
                }),
    {
        if !placement.accepted {
            return;
        }
        self.prune(now_ms);
        let ghost pre = *self;
        let stored = Order {
            id: placement.order_id.clone(),
            token_id: order.token_id.clone(),
            side: order.side,
            price: order.price,
            size: order.size,
            order_type: order.order_type,
            post_only: order.post_only,
            timestamp_ms: order.timestamp_ms,
        };
        let idx: usize = self.find_order(&placement.order_id);
        if idx < self.open_orders.len() {
            self.open_orders.set(idx, (placement.order_id.clone(), stored));
            proof {
                assert(self.open_orders@[idx as int].0@ == placement.order_id@);
                assert forall|i: int, j: int| 0 <= i < j < self.open_orders@.len() implies
                    self.open_orders@[i].0@ != self.open_orders@[j].0@ by {
                    assert(pre.open_orders@[idx as int].0@ == placement.order_id@);
                }
            }
        } else {
            self.open_orders.push((placement.order_id.clone(), stored));
            proof {
                assert forall|i: int, j: int| 0 <= i < j < self.open_orders@.len() implies
                    self.open_orders@[i].0@ != self.open_orders@[j].0@ by {
                    if j == self.open_orders@.len() - 1 {
                        assert(pre.open_orders@[i].0@ != placement.order_id@);
                    }
                }
            }
        }
        proof {
            let k = idx as int;
            if idx < pre.open_orders@.len() {
                assert(self.open_orders@[k].0@ == placement.order_id@);
                assert(self.open_orders@[k].1 == (Order { id: placement.order_id, ..*order }));
            } else {
                assert(self.open_orders@.last().0@ == placement.order_id@);
                assert(self.open_orders@.last().1 == (Order {
                    id: placement.order_id,
                    ..*order
                }));
            }
        }
        self.order_timestamps.push(now_ms);
        self.last_order_time = Some(now_ms);
        proof {
            let w: int = if idx < pre.open_orders@.len() {
                idx as int
            } else {
                self.open_orders@.len() - 1
            };
            assert(0 <= w < self.open_orders@.len()
                && self.open_orders@[w].0@ == placement.order_id@
                && self.open_orders@[w].1 == (Order { id: placement.order_id, ..*order }));
            let h0 = pre.history();
            let h1 = self.history();
            assert(h1 =~= h0.push(now_ms as int));
            // Sortedness: the new stamp is at least every old entry.
            assert forall|i: int, j: int| 0 <= i <= j < h1.len() implies h1[i] <= h1[j] by {
                if j < h0.len() {
                    assert(spec_sorted(h0));
                } else {
                    assert(h1[j] == now_ms);
                }
            }
            // The rate law: any window ending at the new entry fits the
            // budget because the live suffix was counted against it.
            assert forall|i: int, j: int|
                0 <= i <= j < h1.len() && h1[j] - h1[i] < RATE_WINDOW_MS implies
                j - i + 1 <= self.max_orders_per_minute by {
                if j < h0.len() {
                    assert(spec_rate_limited(h0, self.max_orders_per_minute as int));
                } else if i < h0.len() {
                    lemma_window_tail(h0, now_ms as int, i);
                }
            }
        }
    }

    /// Index of the tracked order with the given id, or the length.
    fn find_order(&self, order_id: &String) -> (r: usize)
        ensures
            r <= self.open_orders@.len(),
            r < self.open_orders@.len() ==> self.open_orders@[r as int].0@ == order_id@,
            forall|j: int| 0 <= j < r ==> self.open_orders@[j].0@ != order_id@,
    {
        let mut i: usize = 0;
        while i < self.open_orders.len()
            invariant
                0 <= i <= self.open_orders@.len(),
                forall|j: int| 0 <= j < i ==> self.open_orders@[j].0@ != order_id@,
            decreases self.open_orders@.len() - i,
        {
            if self.open_orders[i].0 == *order_id {
                return i;
            }
            i = i + 1;
        }
        i
    }

    /// Replace the tracked open orders with a saved tally, keyed by
    /// each order's venue id.  Ids must be unique, as they are on the
    /// venue side.
    pub fn restore_open_orders(&mut self, orders: &Vec<Order>)
        requires
            old(self).well_formed(),
            forall|i: int, j: int|
                0 <= i < j < orders@.len() ==> orders@[i].id@ != orders@[j].id@,
        ensures
            final(self).well_formed(),
            final(self).open_orders@.len() == orders@.len(),
            forall|k: int|
                0 <= k < orders@.len() ==> #[trigger] final(self).open_orders@[k]
                    == (orders@[k].id, orders@[k]),
            final(self).order_timestamps == old(self).order_timestamps,
            final(self).max_orders_per_minute == old(self).max_orders_per_minute,
            final(self).min_interval_ms == old(self).min_interval_ms,
            final(self).last_order_time == old(self).last_order_time,
            final(self).history() == old(self).history(),
            final(self).seen@ == old(self).seen@,
    {
        self.open_orders.clear();
        let mut k: usize = 0;
        while k < orders.len()
            invariant
                0 <= k <= orders@.len(),
                self.open_orders@.len() == k,
                forall|m: int|
                    0 <= m < k ==> #[trigger] self.open_orders@[m]
                        == (orders@[m].id, orders@[m]),
                forall|i: int, j: int|
                    0 <= i < j < orders@.len() ==> orders@[i].id@ != orders@[j].id@,
                self.order_timestamps == old(self).order_timestamps,
                self.max_orders_per_minute == old(self).max_orders_per_minute,
                self.min_interval_ms == old(self).min_interval_ms,
                self.last_order_time == old(self).last_order_time,
                self.pruned == old(self).pruned,
                self.seen == old(self).seen,
            decreases orders@.len() - k,
        {
            let source = &orders[k];
            let stored = Order {
                id: source.id.clone(),
                token_id: source.token_id.clone(),
                side: source.side,
                price: source.price,
                size: source.size,
                order_type: source.order_type,
                post_only: source.post_only,
                timestamp_ms: source.timestamp_ms,
            };
            self.open_orders.push((source.id.clone(), stored));
            k = k + 1;
        }
        proof {
            assert forall|i: int, j: int| 0 <= i < j < self.open_orders@.len() implies
                self.open_orders@[i].0@ != self.open_orders@[j].0@ by {
                assert(self.open_orders@[i] == (orders@[i].id, orders@[i]));
                assert(self.open_orders@[j] == (orders@[j].id, orders@[j]));
            }
        }
    }

    /// Forget all tracked orders after a mass cancel and pass the
    /// venue's cancelled count through.
    pub fn cancel_all(&mut self, reported_count: usize) -> (r: usize)
        requires
            old(self).well_formed(),
        ensures
            final(self).well_formed(),
            final(self).open_orders@.len() == 0,
            final(self).history() == old(self).history(),
            final(self).max_orders_per_minute == old(self).max_orders_per_minute,
            final(self).min_interval_ms == old(self).min_interval_ms,
            final(self).last_order_time == old(self).last_order_time,
            final(self).seen@ == old(self).seen@,
            r == reported_count,
    {
        self.open_orders.clear();
        reported_count
    }

    /// The number of currently tracked open orders.
    pub fn open_order_count(&self) -> (r: usize)
        ensures
            r == self.open_orders@.len(),
    {
        self.open_orders.len()
    }
}

/// No rolling window of under sixty seconds ever holds more placements
/// than the configured maximum: for any two recorded placement times
/// less than the window apart, the placements between them (inclusive)
/// fit the budget.
pub proof fn lemma_rate_window_bound(om: OrderManager, i: int, j: int)
    requires
        om.well_formed(),
        0 <= i <= j < om.history().len(),
        om.history()[j] - om.history()[i] < RATE_WINDOW_MS,
    ensures
        j - i + 1 <= om.max_orders_per_minute,
{
}

} // verus!
