//! Wallet bookkeeping: cached balances with staleness tracking, the
//! initial bankroll and the running daily result.
//!
//! The chain is queried at the boundary; this module decides when a
//! cached value may be served, records fresh values, and aggregates a
//! wallet snapshot from what is cached.

use vstd::prelude::*;

use crate::assoc::{
    lemma_assoc_contains, lemma_assoc_lookup, lemma_assoc_push, lemma_assoc_update,
    spec_assoc_map, spec_assoc_unique,
};

verus! {

/// A cached balance and when it was recorded.
#[derive(Debug, Clone, Copy, PartialEq, Eq, Structural)]
pub struct CachedBalance {
    /// The balance, micro-units.
    pub value: u64,
    /// When it was recorded, Unix milliseconds.
    pub updated_at_ms: u64,
}

impl CachedBalance {
    /// Whether the entry is older than `max_age_secs` at `now_ms`.
    pub fn is_stale(&self, now_ms: u64, max_age_secs: u64) -> (r: bool)
        requires
            now_ms >= self.updated_at_ms,
        ensures
            r == ((now_ms - self.updated_at_ms) / 1000 > max_age_secs),
    {
        (now_ms - self.updated_at_ms) / 1000 > max_age_secs
    }
}

/// Sum of the cached token balances.
pub open spec fn spec_cached_sum(s: Seq<(String, CachedBalance)>) -> int
    decreases s.len(),
{
    if s.len() == 0 {
        0
    } else {
        spec_cached_sum(s.drop_last()) + s.last().1.value
    }
}

/// A point-in-time view of the wallet.
#[derive(Debug, Clone)]
pub struct WalletSnapshot {
    /// Funds available for trading, micro-USDC.
    pub usdc_balance: u64,
    /// Cached token balances by token id.
    pub token_balances: Vec<(String, u64)>,
    /// Funds plus cached token balances, micro-units, saturating.
    pub total_value: u64,
    /// When the snapshot was taken, Unix milliseconds.
    pub timestamp_ms: u64,
}

/// Tracks balances between chain queries.
#[derive(Debug)]
pub struct WalletManager {
    /// Cached funds balance.
    pub usdc_cache: Option<CachedBalance>,
    /// Cached token balances, keys unique.
    pub token_cache: Vec<(String, CachedBalance)>,
    /// Maximum cache age before a fresh query, seconds.
    pub cache_ttl_secs: u64,
    /// The bankroll recorded at startup.
    pub initial_bankroll: Option<u64>,
}

impl WalletManager {
    /// Keys of the token cache are unique.
    pub open spec fn well_formed(self) -> bool {
        spec_assoc_unique(self.token_cache@)
    }

    /// A fresh manager with the default thirty-second cache age.
    pub fn new() -> (r: WalletManager)
        ensures
            r.well_formed(),
            r.cache_ttl_secs == 30,
            r.usdc_cache is None,
            r.token_cache@.len() == 0,
            r.initial_bankroll is None,
    {
        WalletManager {
            usdc_cache: None,
            token_cache: Vec::new(),
            cache_ttl_secs: 30,
            initial_bankroll: None,
        }
    }

    /// A fresh manager with a custom cache age.
    pub fn with_cache_ttl(cache_ttl_secs: u64) -> (r: WalletManager)
        ensures
            r.well_formed(),
            r.cache_ttl_secs == cache_ttl_secs,
            r.usdc_cache is None,
            r.token_cache@.len() == 0,
            r.initial_bankroll is None,
    {
        WalletManager {
            usdc_cache: None,
            token_cache: Vec::new(),
            cache_ttl_secs,
            initial_bankroll: None,
        }
    }

    /// The cached funds balance, when it is still fresh at `now_ms`;
    /// `None` asks the caller to query the chain.
    pub fn cached_usdc(&self, now_ms: u64) -> (r: Option<u64>)
        requires
            match self.usdc_cache {
                Some(c) => now_ms >= c.updated_at_ms,
                None => true,
            },
        ensures
            r == match self.usdc_cache {
                Some(c) => if (now_ms - c.updated_at_ms) / 1000 > self.cache_ttl_secs {
                    None::<u64>
                } else {
                    Some(c.value)
                },
                None => None::<u64>,
            },
    {
        match &self.usdc_cache {
            Some(c) => {
                if c.is_stale(now_ms, self.cache_ttl_secs) {
                    None
                } else {
                    Some(c.value)
                }
            },
            None => None,
        }
    }

    /// Record a freshly fetched funds balance.
    pub fn record_usdc(&mut self, value: u64, now_ms: u64)
        requires
            old(self).well_formed(),
        ensures
            final(self).well_formed(),
            *final(self) == (WalletManager {
                usdc_cache: Some(CachedBalance { value, updated_at_ms: now_ms }),
                ..*old(self)
            }),
    {
        self.usdc_cache = Some(CachedBalance { value, updated_at_ms: now_ms });
    }

    /// The cached balance of one token, when still fresh at `now_ms`.
    pub fn cached_token(&self, token_id: &String, now_ms: u64) -> (r: Option<u64>)
        requires
            self.well_formed(),
            forall|i: int| 0 <= i < self.token_cache@.len()
                ==> now_ms >= #[trigger] self.token_cache@[i].1.updated_at_ms,
        ensures
            r == match (if spec_assoc_map(self.token_cache@).contains_key(token_id@) {
                Some(spec_assoc_map(self.token_cache@)[token_id@])
            } else {
                None::<CachedBalance>
            }) {
                Some(c) => if (now_ms - c.updated_at_ms) / 1000 > self.cache_ttl_secs {
                    None::<u64>
                } else {
                    Some(c.value)
                },
                None => None::<u64>,
            },
    {
        let idx: usize = self.find_token(token_id);
        if idx < self.token_cache.len() {
            proof {
                lemma_assoc_lookup(self.token_cache@, idx as int);
            }
            let c = self.token_cache[idx].1;
            if c.is_stale(now_ms, self.cache_ttl_secs) {
                None
            } else {
                Some(c.value)
            }
        } else {
            proof {
                lemma_assoc_contains(self.token_cache@, token_id@);
            }
            None
        }
    }

    /// Record a freshly fetched token balance.
    pub fn record_token(&mut self, token_id: &String, value: u64, now_ms: u64)
        requires
            old(self).well_formed(),
        ensures
            final(self).well_formed(),
            final(self).usdc_cache == old(self).usdc_cache,
            final(self).cache_ttl_secs == old(self).cache_ttl_secs,
            final(self).initial_bankroll == old(self).initial_bankroll,
            spec_assoc_map(final(self).token_cache@) =~= spec_assoc_map(
                old(self).token_cache@,
            ).insert(token_id@, CachedBalance { value, updated_at_ms: now_ms }),
    {
        let entry = CachedBalance { value, updated_at_ms: now_ms };
        let idx: usize = self.find_token(token_id);
        let key: String = token_id.clone();
        if idx < self.token_cache.len() {
            proof {
                lemma_assoc_update(self.token_cache@, idx as int, (key, entry));
            }
            self.token_cache.set(idx, (key, entry));
        } else {
            proof {
                lemma_assoc_push(self.token_cache@, (key, entry));
            }
            self.token_cache.push((key, entry));
        }
    }

    /// Index of the cached token entry, or the length when absent.
    fn find_token(&self, key: &String) -> (r: usize)
        ensures
            r <= self.token_cache@.len(),
            r < self.token_cache@.len() ==> self.token_cache@[r as int].0@ == key@,
            forall|j: int| 0 <= j < r ==> self.token_cache@[j].0@ != key@,
    {
        let mut i: usize = 0;
        while i < self.token_cache.len()
            invariant
                0 <= i <= self.token_cache@.len(),
                forall|j: int| 0 <= j < i ==> self.token_cache@[j].0@ != key@,
            decreases self.token_cache@.len() - i,
        {
            if self.token_cache[i].0 == *key {
                return i;
            }
            i = i + 1;
        }
        i
    }

    /// Assemble a wallet snapshot from the given funds balance and the
    /// cached token balances; the total saturates at the largest
    /// representable value.
    pub fn snapshot(&self, usdc_balance: u64, now_ms: u64) -> (r: WalletSnapshot)
        requires
            self.well_formed(),
        ensures
            r.usdc_balance == usdc_balance,
            r.timestamp_ms == now_ms,
            r.token_balances@.len() == self.token_cache@.len(),
            forall|i: int| 0 <= i < r.token_balances@.len()
                ==> #[trigger] r.token_balances@[i] == (
                self.token_cache@[i].0,
                self.token_cache@[i].1.value,
            ),
            ({
                let exact = usdc_balance + spec_cached_sum(self.token_cache@);
                r.total_value == if exact <= u64::MAX {
                    exact as u64
                } else {
                    u64::MAX
                }
            }),
    {
        let mut balances: Vec<(String, u64)> = Vec::new();
        let mut total: u128 = usdc_balance as u128;
        let mut i: usize = 0;
        proof {
            assert(self.token_cache@.subrange(0, 0) =~= Seq::<(String, CachedBalance)>::empty());
            lemma_cached_sum_bound(self.token_cache@);
        }
        while i < self.token_cache.len()
            invariant
                0 <= i <= self.token_cache@.len(),
                balances@.len() == i,
                forall|j: int| 0 <= j < i ==> #[trigger] balances@[j] == (
                    self.token_cache@[j].0,
                    self.token_cache@[j].1.value,
                ),
                total == usdc_balance + spec_cached_sum(self.token_cache@.subrange(0, i as int)),
                total <= u64::MAX as int + (i as int) * (u64::MAX as int),
            decreases self.token_cache@.len() - i,
        {
            proof {
                assert(self.token_cache@.subrange(0, i + 1).drop_last()
                    =~= self.token_cache@.subrange(0, i as int));
                assert((i as int) * (u64::MAX as int) + (u64::MAX as int)
                    == (i + 1) * (u64::MAX as int)) by (nonlinear_arith);
            }
            let entry = &self.token_cache[i];
            balances.push((entry.0.clone(), entry.1.value));
            total = total + entry.1.value as u128;
            i = i + 1;
        }
        proof {
            assert(self.token_cache@.subrange(0, self.token_cache@.len() as int)
                =~= self.token_cache@);
        }
        let total_value: u64 = if total > u64::MAX as u128 {
            u64::MAX
        } else {
            total as u64
        };
        WalletSnapshot { usdc_balance, token_balances: balances, total_value, timestamp_ms: now_ms }
    }

    /// Record the bankroll observed at startup and hand it back.
    pub fn record_initial_bankroll(&mut self, balance: u64) -> (r: u64)
        requires
            old(self).well_formed(),
        ensures
            final(self).well_formed(),
            *final(self) == (WalletManager { initial_bankroll: Some(balance), ..*old(self) }),
            r == balance,
    {
        self.initial_bankroll = Some(balance);
        balance
    }

    /// The bankroll recorded at startup, if any.
    pub fn initial_bankroll(&self) -> (r: Option<u64>)
        ensures
            r == self.initial_bankroll,
    {
        self.initial_bankroll
    }

    /// Today's result so far: the current balance against the initial
    /// bankroll (zero before the bankroll was recorded).
    pub fn daily_pnl(&self, current_balance: u64) -> (r: i64)
        requires
            current_balance <= i64::MAX,
            match self.initial_bankroll {
                Some(b) => b <= i64::MAX,
                None => true,
            },
        ensures
            r == match self.initial_bankroll {
                Some(initial) => current_balance - initial,
                None => 0int,
            },
    {
        match self.initial_bankroll {
            Some(initial) => current_balance as i64 - initial as i64,
            None => 0,
        }
    }

    /// Whether a balance clears the configured minimum bankroll.
    pub fn is_above_minimum(&self, balance: u64, min_bankroll: u64) -> (r: bool)
        ensures
            r == (balance >= min_bankroll),
    {
        balance >= min_bankroll
    }
}

/// The cached sum is bounded by count times the largest balance.
proof fn lemma_cached_sum_bound(s: Seq<(String, CachedBalance)>)
    ensures
        0 <= spec_cached_sum(s) <= s.len() * (u64::MAX as int),
    decreases s.len(),
{
    if s.len() > 0 {
        lemma_cached_sum_bound(s.drop_last());
        assert((s.len() - 1) * (u64::MAX as int) + (u64::MAX as int)
            == s.len() * (u64::MAX as int)) by (nonlinear_arith);
    }
}

} // verus!
