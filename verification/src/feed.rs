//! Feed fan-in: per-token channel state with debouncing, out-of-order
//! rejection and a last-snapshot cache.
//!
//! The transport parses raw feed text and hands in plain top-of-book
//! values; this module decides, per token, whether an update is emitted
//! to subscribers: the first usable update always emits, a stale
//! sequence number is dropped, and a mid-price move smaller than the
//! configured relative threshold is suppressed.

use vstd::prelude::*;

use crate::assoc::{
    lemma_assoc_push, lemma_assoc_update, spec_assoc_map, spec_assoc_unique,
};
use crate::fixed::SCALE;
use crate::ports::{BookSnapshot, PriceUpdate};

verus! {

/// Cached per-token channel state.
#[derive(Debug, Clone)]
pub struct TokenChannel {
    /// Mid price of the last emitted update, micro-units.
    pub last_emitted_mid: Option<u64>,
    /// Highest sequence number seen.
    pub last_sequence: Option<u64>,
    /// The most recent emitted snapshot.
    pub last_snapshot: Option<BookSnapshot>,
}

/// What became of one ingested top-of-book observation.
#[derive(Debug, Clone)]
pub enum IngestOutcome {
    /// The sequence number did not advance; the update was dropped.
    OutOfOrder,
    /// The relative mid-price move stayed below the threshold.
    Debounced,
    /// The update is emitted to subscribers.
    Emit(PriceUpdate),
}

/// The relative mid-price move clears the threshold: the first usable
/// update always emits; afterwards `|new - last| * SCALE / last` must
/// reach `delta`.
pub open spec fn spec_should_emit(last: Option<u64>, new_mid: u64, delta: u64) -> bool {
    match last {
        None => true,
        Some(l) => if l == 0 {
            true
        } else {
            (if new_mid >= l {
                new_mid - l
            } else {
                l - new_mid
            }) * (SCALE as int) / (l as int) >= delta
        },
    }
}

/// The sequence number advances past everything already seen.
pub open spec fn spec_sequence_fresh(last: Option<u64>, sequence: u64) -> bool {
    match last {
        None => true,
        Some(s) => sequence > s,
    }
}

/// Per-token fan-in state.
pub struct FeedState {
    /// Channel state per token, keys unique.
    pub tokens: Vec<(String, TokenChannel)>,
    /// Minimum relative mid move to emit, micro-units.
    pub min_delta_pct: u64,
}

impl FeedState {
    /// Keys are unique.
    pub open spec fn well_formed(self) -> bool {
        spec_assoc_unique(self.tokens@)
    }

    /// The channel state a token currently has.
    pub open spec fn channel(self, token: Seq<char>) -> Option<TokenChannel> {
        if spec_assoc_map(self.tokens@).contains_key(token) {
            Some(spec_assoc_map(self.tokens@)[token])
        } else {
            None
        }
    }

    /// Create an empty fan-in with the given debounce threshold.
    pub fn new(min_delta_pct: u64) -> (r: FeedState)
        ensures
            r.well_formed(),
            r.min_delta_pct == min_delta_pct,
            r.tokens@.len() == 0,
    {
        FeedState { tokens: Vec::new(), min_delta_pct }
    }

    /// Index of the entry holding `key`, or the length when absent.
    fn find_token(&self, key: &String) -> (r: usize)
        ensures
            r <= self.tokens@.len(),
            r < self.tokens@.len() ==> self.tokens@[r as int].0@ == key@,
            forall|j: int| 0 <= j < r ==> self.tokens@[j].0@ != key@,
    {
        let mut i: usize = 0;
        while i < self.tokens.len()
            invariant
                0 <= i <= self.tokens@.len(),
                forall|j: int| 0 <= j < i ==> self.tokens@[j].0@ != key@,
            decreases self.tokens@.len() - i,
        {
            if self.tokens[i].0 == *key {
                return i;
            }
            i = i + 1;
        }
        i
    }

    /// Ingest one top-of-book observation for a token.  A stale
    /// sequence is dropped; a usable mid price that moves less than the
    /// threshold relative to the last emitted mid is suppressed with no
    /// state change; otherwise the update is emitted, the baseline mid,
    /// sequence and snapshot are stored, and subscribers receive the
    /// assembled update.
    pub fn ingest(
        &mut self,
        market_id: &String,
        token_id: &String,
        best_bid: Option<u64>,
        best_ask: Option<u64>,
        bid_size: Option<u64>,
        ask_size: Option<u64>,
        sequence: u64,
        timestamp_ms: u64,
    ) -> (r: IngestOutcome)
        requires
            old(self).well_formed(),
            best_bid is Some ==> best_bid->0 < SCALE,
            best_ask is Some ==> best_ask->0 < SCALE,
        ensures
            final(self).well_formed(),
            final(self).min_delta_pct == old(self).min_delta_pct,
            ({
                let prior = old(self).channel(token_id@);
                let prior_mid = match prior {
                    Some(ch) => ch.last_emitted_mid,
                    None => None,
                };
                let prior_seq = match prior {
                    Some(ch) => ch.last_sequence,
                    None => None,
                };
                let mid = match (best_bid, best_ask) {
                    (Some(b), Some(a)) => Some((((b + a) as int) / 2) as u64),
                    _ => None,
                };
                let fresh = spec_sequence_fresh(prior_seq, sequence);
                let pass = match mid {
                    Some(m) => spec_should_emit(prior_mid, m, old(self).min_delta_pct),
                    None => true,
                };
                match r {
                    IngestOutcome::OutOfOrder => !fresh && *final(self) == *old(self),
                    IngestOutcome::Debounced => fresh && !pass && *final(self) == *old(self),
                    IngestOutcome::Emit(update) => {
                        &&& fresh
                        &&& pass
                        &&& update.market_id == market_id
                        &&& update.token_id == token_id
                        &&& update.best_bid == best_bid
                        &&& update.best_ask == best_ask
                        &&& update.mid_price == mid
                        &&& update.timestamp_ms == timestamp_ms
                        &&& update.bid_size == bid_size
                        &&& update.ask_size == ask_size
                        &&& final(self).channel(token_id@) matches Some(ch)
                            && ch.last_emitted_mid == mid
                            && ch.last_sequence == Some(sequence)
                        &&& forall|k: Seq<char>| k != token_id@
                            ==> final(self).channel(k) == old(self).channel(k)
                    },
                }
            }),
    {
        let idx: usize = self.find_token(token_id);
        let prior_mid: Option<u64>;
        let prior_seq: Option<u64>;
        if idx < self.tokens.len() {
            prior_mid = self.tokens[idx].1.last_emitted_mid;
            prior_seq = self.tokens[idx].1.last_sequence;
            proof {
                crate::assoc::lemma_assoc_lookup(self.tokens@, idx as int);
            }
        } else {
            prior_mid = None;
            prior_seq = None;
            proof {
                crate::assoc::lemma_assoc_contains(self.tokens@, token_id@);
            }
        }
        match prior_seq {
            Some(s) => {
                if sequence <= s {
                    return IngestOutcome::OutOfOrder;
                }
            },
            None => {},
        }
        let mid: Option<u64> = match (best_bid, best_ask) {
            (Some(b), Some(a)) => Some((b + a) / 2),
            _ => None,
        };
        match (mid, prior_mid) {
            (Some(m), Some(l)) => {
                if l >= 1 {
                    let diff: u64 = if m >= l {
                        m - l
                    } else {
                        l - m
                    };
                    proof {
                        assert((diff as int) * (SCALE as int) / (l as int)
                            <= (diff as int) * (SCALE as int)) by (nonlinear_arith)
                            requires
                                0 <= diff,
                                1 <= l,
                        ;
                    }
                    let rel: u128 = (diff as u128) * (SCALE as u128) / (l as u128);
                    if rel < self.min_delta_pct as u128 {
                        return IngestOutcome::Debounced;
                    }
                }
            },
            _ => {},
        }
        let snapshot = BookSnapshot {
            token_id: token_id.clone(),
            bids: match (best_bid, bid_size) {
                (Some(p), Some(s)) => vec![(p, s)],
                (Some(p), None) => vec![(p, 0u64)],
                _ => Vec::new(),
            },
            asks: match (best_ask, ask_size) {
                (Some(p), Some(s)) => vec![(p, s)],
                (Some(p), None) => vec![(p, 0u64)],
                _ => Vec::new(),
            },
            sequence,
            timestamp_ms,
        };
        let channel = TokenChannel {
            last_emitted_mid: mid,
            last_sequence: Some(sequence),
            last_snapshot: Some(snapshot),
        };
        let key: String = token_id.clone();
        if idx < self.tokens.len() {
            proof {
                lemma_assoc_update(self.tokens@, idx as int, (key, channel));
            }
            self.tokens.set(idx, (key, channel));
        } else {
            proof {
                lemma_assoc_push(self.tokens@, (key, channel));
            }
            self.tokens.push((key, channel));
        }
        IngestOutcome::Emit(
            PriceUpdate {
                market_id: market_id.clone(),
                token_id: token_id.clone(),
                best_bid,
                best_ask,
                mid_price: mid,
                timestamp_ms,
                bid_size,
                ask_size,
            },
        )
    }

    /// The last emitted snapshot for a token, for point queries.
    pub fn last_snapshot(&self, token_id: &String) -> (r: Option<&BookSnapshot>)
        requires
            self.well_formed(),
        ensures
            match r {
                Some(s) => (self.channel(token_id@) matches Some(ch)
                    && ch.last_snapshot == Some(*s)),
                None => (self.channel(token_id@) is None
                    || self.channel(token_id@)->0.last_snapshot is None),
            },
    {
        let idx: usize = self.find_token(token_id);
        if idx < self.tokens.len() {
            proof {
                crate::assoc::lemma_assoc_lookup(self.tokens@, idx as int);
            }
            match &self.tokens[idx].1.last_snapshot {
                Some(s) => Some(s),
                None => None,
            }
        } else {
            proof {
                crate::assoc::lemma_assoc_contains(self.tokens@, token_id@);
            }
            None
        }
    }
}

/// A re-emission for the same token whose relative mid move stays under
/// the threshold is suppressed: with a baseline mid `l >= 1` and
/// `|m - l| * SCALE / l < delta`, the emit gate rejects the update.
pub proof fn lemma_debounce_suppresses(l: u64, m: u64, delta: u64)
    requires
        l >= 1,
        (if m >= l {
            m - l
        } else {
            l - m
        }) * (SCALE as int) / (l as int) < delta,
    ensures
        !spec_should_emit(Some(l), m, delta),
{
}

} // verus!
