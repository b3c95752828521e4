//! Arbitrage engine: the signal-to-order pipeline.
//!
//! The engine is a pure decision core.  A price update is evaluated in
//! two steps: `process_update` fuses the mid price into the probability
//! estimate, prices the fair value, measures the edge net of fees and
//! applies the risk gate; when a signal survives, the caller fetches the
//! bankroll and hands it to `size_and_place`, which sizes the position
//! under fractional Kelly, applies the position gate and the order
//! manager's rate gates, and returns the maker order to submit.  The
//! surrounding event loop, the transports and the clock live outside;
//! every decision here is a function of the arguments and the carried
//! state.

use vstd::prelude::*;

use crate::bayesian::{spec_ewma_step, BayesianEstimator};
use crate::config::AppConfig;
use crate::fees::FeeCalculator;
use crate::fixed::SCALE;
use crate::kelly::{spec_kelly_size, KellySizer};
use crate::lmsr::{spec_fair_price, LmsrPricer};
use crate::order_manager::{OrderManager, PlacementDecision};
use crate::ports::{OrderPlacement, PriceUpdate};
use crate::risk::{spec_can_open, spec_can_trade, spec_record_trade, RiskManager};
use crate::trade::Order;

verus! {

/// A surviving signal: what the pipeline decided before sizing.
#[derive(Debug, Clone)]
pub struct Signal {
    /// Token the signal is for.
    pub token_id: String,
    /// Smoothed probability estimate, micro-units.
    pub prob: u64,
    /// Fair YES price, micro-units.
    pub fair: u64,
    /// Net edge against the quoted side, signed micro-units.
    pub edge: i64,
    /// The quoted price the edge was measured against, micro-units.
    pub quoted: u64,
    /// Whether the signal is a buy (positive edge against the ask).
    pub is_buy: bool,
}

/// Outcome of evaluating one price update.
#[derive(Debug, Clone)]
pub enum SignalOutcome {
    /// The engine is shutting down; no updates are accepted.
    Halted,
    /// The update carried no usable mid price.
    NoMid,
    /// The edge net of fees stayed below the configured minimum.
    EdgeTooSmall,
    /// The risk manager currently blocks trading.
    RiskBlocked,
    /// A signal survived; the caller must supply the bankroll.
    NeedBankroll(Signal),
}

/// Outcome of sizing and placing a surviving signal.
#[derive(Debug, Clone)]
pub enum ActOutcome {
    /// The Kelly size fell below one whole USDC.
    SizeTooSmall,
    /// The risk manager denied opening the position.
    RiskDenied,
    /// The order manager's rolling-window budget was exhausted.
    SkippedRate,
    /// The minimum inter-order interval had not elapsed.
    SkippedInterval,
    /// The maker order to submit to the venue.
    Submit(Order),
}

/// The probability the Kelly sizer bets on and the price it pays: the
/// estimate against the ask for a buy, the complement estimate against
/// the complement bid for a sell.
pub open spec fn spec_kelly_inputs(prob: int, quoted: int, is_buy: bool) -> (int, int) {
    if is_buy {
        (prob, quoted)
    } else {
        (SCALE - prob, SCALE - quoted)
    }
}

/// Arbitrage engine state: all domain components plus the pipeline
/// switches.
pub struct ArbitrageEngine {
    /// Fair-price helper.
    pub pricer: LmsrPricer,
    /// Kelly position sizer.
    pub sizer: KellySizer,
    /// Fee calculator (the maker variant).
    pub fees: FeeCalculator,
    /// Probability estimator.
    pub estimator: BayesianEstimator,
    /// Order lifecycle manager.
    pub order_manager: OrderManager,
    /// Risk limits and circuit breaker.
    pub risk_manager: RiskManager,
    /// Minimum edge, micro-units, to act on a signal.
    pub min_edge: u64,
    /// Whether the engine still accepts feed events.
    pub accepting: bool,
    /// Whether the shutdown cancel-all has already been requested.
    pub cancel_requested: bool,
    /// Cumulative realized profit and loss, signed micro-units.
    pub cumulative_pnl: i64,
    /// The latest clock value the engine has seen.
    pub clock: Ghost<int>,
}

impl ArbitrageEngine {
    /// The engine invariant: components well formed, the maker fee
    /// variant wired in, and every time stamp inside the state at or
    /// below the engine clock.
    pub open spec fn well_formed(self) -> bool {
        &&& self.pricer.model.well_formed()
        &&& self.sizer.inner.well_formed()
        &&& self.fees.well_formed()
        &&& self.fees.spec_is_maker()
        &&& self.estimator.well_formed()
        &&& self.order_manager.well_formed()
        &&& self.risk_manager.well_formed()
        &&& self.min_edge < SCALE
        &&& self.order_manager.seen@ <= self.clock@
        &&& match self.risk_manager.breaker {
            crate::risk::BreakerState::Tripped { since_ms } => since_ms <= self.clock@,
            crate::risk::BreakerState::Armed => true,
        }
    }

    /// Wire a new engine from configuration: quarter-Kelly sizing, the
    /// maker fee calculator, a fresh estimator, order manager and risk
    /// manager.
    pub fn new(config: &AppConfig) -> (r: ArbitrageEngine)
        requires
            config.lmsr.liquidity_parameter >= 1,
            0 < config.lmsr.kelly_fraction <= SCALE,
            0 < config.lmsr.prior_weight <= SCALE,
            config.lmsr.min_edge < SCALE,
            0 < config.risk.max_daily_loss_fraction <= SCALE,
            config.risk.circuit_breaker_losses >= 1,
            config.rate_limits.max_orders_per_minute >= 1,
        ensures
            r.well_formed(),
            r.accepting,
            !r.cancel_requested,
            r.min_edge == config.lmsr.min_edge,
            r.estimator.smoothed_prob is None,
            r.order_manager.open_orders@.len() == 0,
            r.order_manager.history().len() == 0,
            r.order_manager.max_orders_per_minute
                == config.rate_limits.max_orders_per_minute,
            r.order_manager.min_interval_ms == config.rate_limits.min_interval_ms,
            r.risk_manager.breaker == crate::risk::BreakerState::Armed,
            r.risk_manager.daily_loss == 0,
            r.risk_manager.consecutive_losses == 0,
            r.risk_manager.circuit_breaker_losses == config.risk.circuit_breaker_losses,
            r.risk_manager.cooldown_seconds == config.risk.cooldown_seconds,
            r.sizer.inner.fraction == config.lmsr.kelly_fraction,
            r.sizer.inner.max_position_fraction == 62_500,
            r.order_manager.seen@ == 0,
            r.order_manager.last_order_time is None,
            r.cumulative_pnl == 0,
            r.clock@ == 0,
    {
        ArbitrageEngine {
            pricer: LmsrPricer::new(config.lmsr.liquidity_parameter),
            sizer: KellySizer::new(config.lmsr.kelly_fraction),
            fees: FeeCalculator::new_maker(),
            estimator: BayesianEstimator::new(config.lmsr.prior_weight),
            order_manager: OrderManager::new(config),
            risk_manager: RiskManager::new(&config.risk),
            min_edge: config.lmsr.min_edge,
            accepting: true,
            cancel_requested: false,
            cumulative_pnl: 0,
            clock: Ghost(0),
        }
    }

    /// Evaluate one price update at `now_ms`: fuse the mid price,
    /// price the fair value, measure the net edge (buy side against the
    /// best ask, sell side against the best bid) and apply the trade
    /// gate.  Only the probability estimate changes; orders and risk
    /// state never change here.
    pub fn process_update(&mut self, update: &PriceUpdate, now_ms: u64) -> (r: SignalOutcome)
        requires
            old(self).well_formed(),
            old(self).clock@ <= now_ms,
        ensures
            final(self).well_formed(),
            final(self).clock@ == now_ms,
            final(self).order_manager == old(self).order_manager,
            final(self).risk_manager == old(self).risk_manager,
            final(self).accepting == old(self).accepting,
            final(self).cancel_requested == old(self).cancel_requested,
            final(self).min_edge == old(self).min_edge,
            final(self).fees == old(self).fees,
            final(self).sizer == old(self).sizer,
            final(self).pricer == old(self).pricer,
            final(self).cumulative_pnl == old(self).cumulative_pnl,
            !old(self).accepting ==> r is Halted && final(self).estimator == old(
                self,
            ).estimator,
            ({
                let usable = match update.mid_price {
                    Some(mid) => 0 < mid < SCALE,
                    None => false,
                };
                old(self).accepting && !usable ==> r is NoMid && final(self).estimator == old(
                    self,
                ).estimator
            }),
            ({
                let usable = match update.mid_price {
                    Some(mid) => 0 < mid < SCALE,
                    None => false,
                };
                let mid = update.mid_price->0;
                let prob = (match old(self).estimator.smoothed_prob {
                    Some(prev) => spec_ewma_step(
                        prev as int,
                        mid as int,
                        old(self).estimator.alpha as int,
                    ),
                    None => mid as int,
                }) as u64;
                let fair = spec_fair_price(prob as int);
                let buy_ok = match update.best_ask {
                    Some(ask) => ask <= SCALE && fair - ask > 0 && fair - ask >= old(
                        self,
                    ).min_edge,
                    None => false,
                };
                let sell_ok = match update.best_bid {
                    Some(bid) => bid <= SCALE && bid - fair > 0 && bid - fair >= old(
                        self,
                    ).min_edge,
                    None => false,
                };
                old(self).accepting && usable ==> {
                    &&& final(self).estimator.smoothed_prob == Some(prob)
                    &&& match r {
                        SignalOutcome::Halted => false,
                        SignalOutcome::NoMid => false,
                        SignalOutcome::EdgeTooSmall => !buy_ok && !sell_ok,
                        SignalOutcome::RiskBlocked => (buy_ok || sell_ok) && !spec_can_trade(
                            old(self).risk_manager,
                            now_ms,
                        ),
                        SignalOutcome::NeedBankroll(sig) => {
                            &&& spec_can_trade(old(self).risk_manager, now_ms)
                            &&& sig.token_id == update.token_id
                            &&& sig.prob == prob
                            &&& sig.fair == fair
                            &&& (sig.is_buy <==> buy_ok)
                            &&& (sig.is_buy ==> update.best_ask == Some(sig.quoted)
                                && sig.edge == fair - sig.quoted)
                            &&& (!sig.is_buy ==> sell_ok && update.best_bid == Some(sig.quoted)
                                && sig.edge == sig.quoted - fair)
                            &&& sig.edge > 0
                            &&& sig.edge >= old(self).min_edge
                        },
                    }
                }
            }),
    {
        proof {
            self.clock = Ghost(now_ms as int);
        }
        if !self.accepting {
            return SignalOutcome::Halted;
        }
        let mid: u64 = match update.mid_price {
            Some(m) => m,
            None => { return SignalOutcome::NoMid; },
        };
        if mid == 0 || mid >= SCALE {
            return SignalOutcome::NoMid;
        }
        let prob: u64 = self.estimator.update(mid);
        let fair: u64 = self.pricer.price(prob);
        // Buy side: fair value against the best ask.
        let buy_edge: Option<i64> = match update.best_ask {
            Some(ask) if ask <= SCALE => Some(self.fees.net_edge(fair, ask, true)),
            _ => None,
        };
        match buy_edge {
            Some(edge) if edge > 0 && edge >= self.min_edge as i64 => {
                if !self.risk_manager.can_trade(now_ms) {
                    return SignalOutcome::RiskBlocked;
                }
                let quoted: u64 = match update.best_ask {
                    Some(a) => a,
                    None => 0,
                };
                return SignalOutcome::NeedBankroll(
                    Signal {
                        token_id: update.token_id.clone(),
                        prob,
                        fair,
                        edge,
                        quoted,
                        is_buy: true,
                    },
                );
            },
            _ => {},
        }
        // Sell side: best bid against fair value.
        let sell_edge: Option<i64> = match update.best_bid {
            Some(bid) if bid <= SCALE => Some(self.fees.net_edge(fair, bid, false)),
            _ => None,
        };
        match sell_edge {
            Some(edge) if edge > 0 && edge >= self.min_edge as i64 => {
                if !self.risk_manager.can_trade(now_ms) {
                    return SignalOutcome::RiskBlocked;
                }
                let quoted: u64 = match update.best_bid {
                    Some(b) => b,
                    None => 0,
                };
                return SignalOutcome::NeedBankroll(
                    Signal {
                        token_id: update.token_id.clone(),
                        prob,
                        fair,
                        edge,
                        quoted,
                        is_buy: false,
                    },
                );
            },
            _ => {},
        }
        SignalOutcome::EdgeTooSmall
    }

    /// Size a surviving signal against the fetched bankroll and run the
    /// position and rate gates.  A buy bets the estimate against the
    /// quoted ask; a sell bets the complement against the complement of
    /// the quoted bid.  The returned order is priced at fair value.
    pub fn size_and_place(&mut self, signal: &Signal, bankroll: u64, now_ms: u64) -> (r:
        ActOutcome)
        requires
            old(self).well_formed(),
            old(self).clock@ <= now_ms,
            signal.prob <= SCALE,
            signal.quoted <= SCALE,
            0 < signal.fair < SCALE,
        ensures
            final(self).well_formed(),
            final(self).clock@ == now_ms,
            final(self).estimator == old(self).estimator,
            final(self).risk_manager == old(self).risk_manager,
            final(self).order_manager.history() == old(self).order_manager.history(),
            final(self).order_manager.open_orders == old(self).order_manager.open_orders,
            final(self).order_manager.max_orders_per_minute
                == old(self).order_manager.max_orders_per_minute,
            final(self).order_manager.min_interval_ms
                == old(self).order_manager.min_interval_ms,
            final(self).order_manager.last_order_time
                == old(self).order_manager.last_order_time,
            final(self).pricer == old(self).pricer,
            final(self).sizer == old(self).sizer,
            final(self).fees == old(self).fees,
            final(self).min_edge == old(self).min_edge,
            final(self).accepting == old(self).accepting,
            final(self).cancel_requested == old(self).cancel_requested,
            final(self).cumulative_pnl == old(self).cumulative_pnl,
            ({
                let (kp, km) = spec_kelly_inputs(
                    signal.prob as int,
                    signal.quoted as int,
                    signal.is_buy,
                );
                let size = spec_kelly_size(
                    bankroll as int,
                    kp,
                    km,
                    old(self).sizer.inner.fraction as int,
                    old(self).sizer.inner.max_position_fraction as int,
                );
                let budget_free = crate::order_manager::spec_window_count(
                    old(self).order_manager.history(),
                    now_ms as int,
                ) < old(self).order_manager.max_orders_per_minute;
                let interval_ok = match old(self).order_manager.last_order_time {
                    Some(t) => now_ms - t >= old(self).order_manager.min_interval_ms,
                    None => true,
                };
                match r {
                    ActOutcome::SizeTooSmall => size < SCALE,
                    ActOutcome::RiskDenied => size >= SCALE && !spec_can_open(
                        old(self).risk_manager,
                        size as u64,
                        bankroll,
                        now_ms,
                    ),
                    ActOutcome::SkippedRate => size >= SCALE && spec_can_open(
                        old(self).risk_manager,
                        size as u64,
                        bankroll,
                        now_ms,
                    ) && !budget_free,
                    ActOutcome::SkippedInterval => size >= SCALE && spec_can_open(
                        old(self).risk_manager,
                        size as u64,
                        bankroll,
                        now_ms,
                    ) && budget_free && !interval_ok,
                    ActOutcome::Submit(order) => {
                        &&& size >= SCALE
                        &&& spec_can_open(old(self).risk_manager, size as u64, bankroll, now_ms)
                        &&& budget_free
                        &&& interval_ok
                        &&& order.id@ == Seq::<char>::empty()
                        &&& order.token_id == signal.token_id
                        &&& order.price == signal.fair
                        &&& order.size == size
                        &&& order.post_only
                        &&& order.timestamp_ms == now_ms
                        &&& (signal.is_buy <==> order.side is Buy)
                    },
                }
            }),
    {
        proof {
            self.clock = Ghost(now_ms as int);
        }
        let (kelly_prob, kelly_market): (u64, u64) = if signal.is_buy {
            (signal.prob, signal.quoted)
        } else {
            (SCALE - signal.prob, SCALE - signal.quoted)
        };
        let size: u64 = self.sizer.optimal_size(kelly_prob, kelly_market, bankroll);
        if size < SCALE {
            return ActOutcome::SizeTooSmall;
        }
        if !self.risk_manager.can_open_position(size, bankroll, now_ms) {
            return ActOutcome::RiskDenied;
        }
        let decision = self.order_manager.place_maker_order(
            &signal.token_id,
            signal.fair,
            size,
            signal.is_buy,
            now_ms,
        );
        match decision {
            PlacementDecision::SkippedRate => ActOutcome::SkippedRate,
            PlacementDecision::SkippedInterval => ActOutcome::SkippedInterval,
            PlacementDecision::Submit(order) => ActOutcome::Submit(order),
        }
    }

    /// Record the venue's answer for an order returned by
    /// `size_and_place` at the same tick.
    pub fn on_placement(&mut self, order: &Order, placement: &OrderPlacement, now_ms: u64)
        requires
            old(self).well_formed(),
            old(self).clock@ <= now_ms,
            placement.accepted ==> crate::order_manager::spec_window_count(
                old(self).order_manager.history(),
                now_ms as int,
            ) < old(self).order_manager.max_orders_per_minute,
        ensures
            final(self).well_formed(),
            final(self).clock@ == now_ms,
            final(self).estimator == old(self).estimator,
            final(self).risk_manager == old(self).risk_manager,
            final(self).cumulative_pnl == old(self).cumulative_pnl,
            final(self).accepting == old(self).accepting,
            final(self).cancel_requested == old(self).cancel_requested,
            placement.accepted ==> final(self).order_manager.history() == old(
                self,
            ).order_manager.history().push(now_ms as int),
            !placement.accepted ==> final(self).order_manager.history() == old(
                self,
            ).order_manager.history() && final(self).order_manager.open_orders == old(
                self,
            ).order_manager.open_orders,
    {
        proof {
            self.clock = Ghost(now_ms as int);
        }
        self.order_manager.on_placement(order, placement, now_ms);
    }

    /// Record a realized trade result: the risk manager sees the
    /// result, and the cumulative tally takes it (saturating at the
    /// representable extremes).
    pub fn record_trade(&mut self, pnl: i64, now_ms: u64)
        requires
            old(self).well_formed(),
            old(self).clock@ <= now_ms,
        ensures
            final(self).well_formed(),
            final(self).clock@ == now_ms,
            final(self).risk_manager == spec_record_trade(
                old(self).risk_manager,
                pnl,
                now_ms,
            ),
            final(self).order_manager == old(self).order_manager,
            final(self).estimator == old(self).estimator,
            final(self).accepting == old(self).accepting,
            final(self).cancel_requested == old(self).cancel_requested,
            ({
                let exact = old(self).cumulative_pnl + pnl;
                final(self).cumulative_pnl == if exact > i64::MAX {
                    i64::MAX as int
                } else if exact < i64::MIN {
                    i64::MIN as int
                } else {
                    exact
                }
            }),
    {
        proof {
            self.clock = Ghost(now_ms as int);
        }
        self.risk_manager.record_trade(pnl, now_ms);
        let wide: i128 = (self.cumulative_pnl as i128) + (pnl as i128);
        self.cumulative_pnl = if wide > i64::MAX as i128 {
            i64::MAX
        } else if wide < i64::MIN as i128 {
            i64::MIN
        } else {
            wide as i64
        };
    }

    /// Re-apply a saved snapshot on startup: the open-order tally, the
    /// daily loss and the cumulative tally come back; limits, the
    /// breaker and the estimator are untouched.  Venue order ids in a
    /// snapshot are unique, which the tracked map relies on.
    pub fn restore_snapshot(&mut self, snapshot: &crate::ports::BotStateSnapshot)
        requires
            old(self).well_formed(),
            forall|i: int, j: int|
                0 <= i < j < snapshot.open_orders@.len()
                    ==> snapshot.open_orders@[i].id@ != snapshot.open_orders@[j].id@,
        ensures
            final(self).well_formed(),
            final(self).cumulative_pnl == snapshot.cumulative_pnl,
            final(self).risk_manager == (crate::risk::RiskManager {
                daily_loss: snapshot.daily_loss,
                ..old(self).risk_manager
            }),
            final(self).order_manager.open_orders@.len() == snapshot.open_orders@.len(),
            forall|k: int|
                0 <= k < snapshot.open_orders@.len()
                    ==> #[trigger] final(self).order_manager.open_orders@[k]
                        == (snapshot.open_orders@[k].id, snapshot.open_orders@[k]),
            final(self).order_manager.history() == old(self).order_manager.history(),
            final(self).order_manager.max_orders_per_minute
                == old(self).order_manager.max_orders_per_minute,
            final(self).order_manager.min_interval_ms
                == old(self).order_manager.min_interval_ms,
            final(self).estimator == old(self).estimator,
            final(self).clock@ == old(self).clock@,
            final(self).accepting == old(self).accepting,
            final(self).cancel_requested == old(self).cancel_requested,
    {
        self.risk_manager.daily_loss = snapshot.daily_loss;
        self.cumulative_pnl = snapshot.cumulative_pnl;
        self.order_manager.restore_open_orders(&snapshot.open_orders);
    }

    /// Take the shutdown signal: stop accepting feed events.  Returns
    /// true exactly on the first call, when the caller must issue the
    /// venue-wide cancel; later calls change nothing and return false.
    pub fn begin_shutdown(&mut self) -> (r: bool)
        requires
            old(self).well_formed(),
        ensures
            final(self).well_formed(),
            !final(self).accepting,
            final(self).cancel_requested,
            r == !old(self).cancel_requested,
            final(self).order_manager == old(self).order_manager,
            final(self).risk_manager == old(self).risk_manager,
            final(self).estimator == old(self).estimator,
            final(self).clock@ == old(self).clock@,
    {
        self.accepting = false;
        if self.cancel_requested {
            false
        } else {
            self.cancel_requested = true;
            true
        }
    }

    /// Forget tracked orders after the venue confirmed a mass cancel.
    pub fn on_cancel_all(&mut self, reported_count: usize) -> (r: usize)
        requires
            old(self).well_formed(),
        ensures
            final(self).well_formed(),
            final(self).order_manager.open_orders@.len() == 0,
            r == reported_count,
            final(self).clock@ == old(self).clock@,
            final(self).risk_manager == old(self).risk_manager,
            final(self).estimator == old(self).estimator,
    {
        self.order_manager.cancel_all(reported_count)
    }
}

} // verus!
