//! Paper execution: the in-process venue used in paper trading mode and
//! by the tests.  Every submitted order is accepted and assigned a
//! sequential identifier; a mass cancel reports exactly the orders that
//! were open and leaves none behind.

use vstd::prelude::*;

use crate::numfmt::{spec_u64_chars, u64_to_string};
use crate::ports::OrderPlacement;
use crate::trade::Order;

verus! {

/// The identifier the paper venue assigns to its `n`-th order.
pub open spec fn spec_paper_id(n: int) -> Seq<char> {
    "paper-"@ + spec_u64_chars(n)
}

/// The count a mass cancel reports for a book: every open order.
pub open spec fn spec_cancel_count(open: Seq<Order>) -> int {
    open.len() as int
}

/// The book a mass cancel leaves behind: an empty one.
pub open spec fn spec_cancel_remaining(open: Seq<Order>) -> Seq<Order> {
    Seq::empty()
}

/// In-process execution venue for paper trading.
pub struct PaperExecution {
    /// Orders currently open on the paper book.
    pub open_orders: Vec<Order>,
    /// Next order identifier to assign.
    pub next_id: u64,
    /// The balance reported for sizing, micro-USDC.
    pub balance: u64,
}

impl PaperExecution {
    /// Create a paper venue reporting the given balance.
    pub fn new(balance: u64) -> (r: PaperExecution)
        ensures
            r.open_orders@.len() == 0,
            r.next_id == 0,
            r.balance == balance,
    {
        PaperExecution { open_orders: Vec::new(), next_id: 0, balance }
    }

    /// Accept an order: assign the next sequential id, keep the order
    /// on the paper book, and acknowledge it.
    pub fn place_order(&mut self, order: &Order, now_ms: u64) -> (r: OrderPlacement)
        requires
            old(self).next_id < u64::MAX,
        ensures
            final(self).next_id == old(self).next_id + 1,
            final(self).balance == old(self).balance,
            r.accepted,
            r.rejection_reason is None,
            r.timestamp_ms == now_ms,
            r.order_id@ == spec_paper_id(old(self).next_id as int),
            final(self).open_orders@ == old(self).open_orders@.push(
                Order { id: r.order_id, ..*order },
            ),
    {
        proof {
            reveal_strlit("paper-");
        }
        let mut id: String = String::from_str("paper-");
        let digits: String = u64_to_string(self.next_id);
        id.append(digits.as_str());
        let stored = Order {
            id: id.clone(),
            token_id: order.token_id.clone(),
            side: order.side,
            price: order.price,
            size: order.size,
            order_type: order.order_type,
            post_only: order.post_only,
            timestamp_ms: order.timestamp_ms,
        };
        self.open_orders.push(stored);
        self.next_id = self.next_id + 1;
        OrderPlacement {
            order_id: id,
            accepted: true,
            rejection_reason: None,
            timestamp_ms: now_ms,
        }
    }

    /// Cancel every open order and report how many there were.
    pub fn cancel_all_orders(&mut self) -> (r: usize)
        ensures
            r == spec_cancel_count(old(self).open_orders@),
            final(self).open_orders@ == spec_cancel_remaining(old(self).open_orders@),
            final(self).next_id == old(self).next_id,
            final(self).balance == old(self).balance,
    {
        let n: usize = self.open_orders.len();
        self.open_orders.clear();
        proof {
            assert(self.open_orders@ =~= Seq::<Order>::empty());
        }
        n
    }

    /// The orders currently open on the paper book.
    pub fn get_open_orders(&self) -> (r: &Vec<Order>)
        ensures
            r == &self.open_orders,
    {
        &self.open_orders
    }

    /// The balance available for trading.
    pub fn available_balance(&self) -> (r: u64)
        ensures
            r == self.balance,
    {
        self.balance
    }
}

/// Mass cancellation is idempotent: the first call reports the number
/// of orders that were open; a repeated call reports zero and leaves
/// the book exactly as the first call left it, until new orders are
/// placed.
pub proof fn lemma_cancel_all_idempotent(open: Seq<Order>)
    ensures
        spec_cancel_count(open) == open.len(),
        spec_cancel_count(spec_cancel_remaining(open)) == 0,
        spec_cancel_remaining(spec_cancel_remaining(open)) == spec_cancel_remaining(open),
{
    assert(spec_cancel_remaining(spec_cancel_remaining(open)) =~= spec_cancel_remaining(open));
}

} // verus!
