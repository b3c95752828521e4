//! Risk manager: daily-loss ceiling, position and exposure limits, and a
//! consecutive-loss circuit breaker with cooldown.
//!
//! All decisions are local: the manager never performs I/O, and every
//! time-dependent check takes the current time as an argument.  A denied
//! request is a decision, not an error.

use vstd::prelude::*;

use crate::config::RiskConfig;
use crate::fixed::{spec_mul_units, SCALE};

verus! {

/// Circuit-breaker state: trading allowed, or paused since a trip time.
#[derive(Debug, Clone, Copy, PartialEq, Eq, Structural)]
pub enum BreakerState {
    /// Trading allowed.
    Armed,
    /// Tripped at the given time; trading paused until the cooldown ends.
    Tripped { since_ms: u64 },
}

/// Result of recording one trade: the new loss counters and breaker.
pub open spec fn spec_record_trade(
    rm: RiskManager,
    pnl: i64,
    now_ms: u64,
) -> RiskManager {
    if pnl < 0 {
        let loss = -(pnl as int);
        let new_daily = if rm.daily_loss + loss <= u64::MAX {
            (rm.daily_loss + loss) as u64
        } else {
            u64::MAX
        };
        let new_count = if rm.consecutive_losses + 1 <= u32::MAX {
            (rm.consecutive_losses + 1) as u32
        } else {
            u32::MAX
        };
        let new_breaker = if new_count >= rm.circuit_breaker_losses {
            BreakerState::Tripped { since_ms: now_ms }
        } else {
            rm.breaker
        };
        RiskManager {
            daily_loss: new_daily,
            consecutive_losses: new_count,
            breaker: new_breaker,
            ..rm
        }
    } else {
        RiskManager { consecutive_losses: 0, ..rm }
    }
}

/// Whether trading is allowed at `now_ms`: armed, or the cooldown since
/// the trip has fully elapsed.
pub open spec fn spec_can_trade(rm: RiskManager, now_ms: u64) -> bool {
    match rm.breaker {
        BreakerState::Armed => true,
        BreakerState::Tripped { since_ms } => (now_ms - since_ms) / 1000 >= rm.cooldown_seconds,
    }
}

/// Whether a new position of `size` may be opened at `now_ms` with the
/// given bankroll: trading allowed, bankroll above the minimum, size
/// within the per-market limit, total exposure within its ceiling, and
/// the daily loss plus the worst-case loss of the position (its full
/// size) within the daily-loss budget.
pub open spec fn spec_can_open(rm: RiskManager, size: u64, bankroll: u64, now_ms: u64) -> bool {
    &&& spec_can_trade(rm, now_ms)
    &&& bankroll >= rm.min_bankroll
    &&& size <= rm.max_position_size
    &&& rm.total_exposure + size <= rm.max_total_exposure
    &&& rm.daily_loss + size <= spec_mul_units(bankroll as int, rm.max_daily_loss_fraction as int)
}

/// Risk manager state.  Limits come from configuration; counters are
/// mutated only by the engine task.
#[derive(Debug, Clone)]
pub struct RiskManager {
    /// Maximum daily loss as a fraction of bankroll, micro-units.
    pub max_daily_loss_fraction: u64,
    /// Maximum position size per market, micro-USDC.
    pub max_position_size: u64,
    /// Maximum total exposure, micro-USDC.
    pub max_total_exposure: u64,
    /// Minimum bankroll to continue trading, micro-USDC.
    pub min_bankroll: u64,
    /// Consecutive losses that trip the circuit breaker.
    pub circuit_breaker_losses: u32,
    /// Cooldown after a trip, in seconds.
    pub cooldown_seconds: u64,
    /// Realized loss so far today, micro-USDC (never negative).
    pub daily_loss: u64,
    /// Current run of consecutive losing trades.
    pub consecutive_losses: u32,
    /// Circuit-breaker state.
    pub breaker: BreakerState,
    /// Current total exposure, micro-USDC.
    pub total_exposure: u64,
}

impl RiskManager {
    /// The loss fraction is a fraction of one and the breaker threshold
    /// is positive.
    pub open spec fn well_formed(self) -> bool {
        &&& 0 < self.max_daily_loss_fraction <= SCALE
        &&& self.circuit_breaker_losses >= 1
    }

    /// Create a risk manager from configuration, with clean counters and
    /// the breaker armed.
    pub fn new(config: &RiskConfig) -> (r: RiskManager)
        requires
            0 < config.max_daily_loss_fraction <= SCALE,
            config.circuit_breaker_losses >= 1,
        ensures
            r.well_formed(),
            r.max_daily_loss_fraction == config.max_daily_loss_fraction,
            r.max_position_size == config.max_position_size,
            r.max_total_exposure == config.max_total_exposure,
            r.min_bankroll == config.min_bankroll,
            r.circuit_breaker_losses == config.circuit_breaker_losses,
            r.cooldown_seconds == config.cooldown_seconds,
            r.daily_loss == 0,
            r.consecutive_losses == 0,
            r.breaker == BreakerState::Armed,
            r.total_exposure == 0,
    {
        RiskManager {
            max_daily_loss_fraction: config.max_daily_loss_fraction,
            max_position_size: config.max_position_size,
            max_total_exposure: config.max_total_exposure,
            min_bankroll: config.min_bankroll,
            circuit_breaker_losses: config.circuit_breaker_losses,
            cooldown_seconds: config.cooldown_seconds,
            daily_loss: 0,
            consecutive_losses: 0,
            breaker: BreakerState::Armed,
            total_exposure: 0,
        }
    }

    /// Whether trading is allowed at `now_ms`.  `now_ms` must not lie
    /// before the trip time: callers feed a monotone clock.
    pub fn can_trade(&self, now_ms: u64) -> (r: bool)
        requires
            match self.breaker {
                BreakerState::Tripped { since_ms } => now_ms >= since_ms,
                BreakerState::Armed => true,
            },
        ensures
            r == spec_can_trade(*self, now_ms),
    {
        match self.breaker {
            BreakerState::Armed => true,
            BreakerState::Tripped { since_ms } => {
                let elapsed_secs: u64 = (now_ms - since_ms) / 1000;
                elapsed_secs >= self.cooldown_seconds
            },
        }
    }

    /// Whether a position of `size` may be opened now.
    pub fn can_open_position(&self, size: u64, bankroll: u64, now_ms: u64) -> (r: bool)
        requires
            self.well_formed(),
            match self.breaker {
                BreakerState::Tripped { since_ms } => now_ms >= since_ms,
                BreakerState::Armed => true,
            },
        ensures
            r == spec_can_open(*self, size, bankroll, now_ms),
    {
        if !self.can_trade(now_ms) {
            return false;
        }
        if bankroll < self.min_bankroll {
            return false;
        }
        if size > self.max_position_size {
            return false;
        }
        if self.total_exposure as u128 + size as u128 > self.max_total_exposure as u128 {
            return false;
        }
        proof {
            crate::fixed::lemma_mul_units_fraction(
                bankroll as int,
                self.max_daily_loss_fraction as int,
            );
        }
        let max_loss: u64 = crate::fixed::mul_units(bankroll, self.max_daily_loss_fraction);
        if self.daily_loss as u128 + size as u128 > max_loss as u128 {
            return false;
        }
        true
    }

    /// Record a trade result.  A loss adds its magnitude to the daily
    /// loss and lengthens the losing run, tripping the breaker at the
    /// configured threshold; a win or flat trade resets the run.
    pub fn record_trade(&mut self, pnl: i64, now_ms: u64)
        ensures
            *final(self) == spec_record_trade(*old(self), pnl, now_ms),
    {
        if pnl < 0 {
            let loss: u64 = (-(pnl as i128)) as u64;
            self.daily_loss = if self.daily_loss <= u64::MAX - loss {
                self.daily_loss + loss
            } else {
                u64::MAX
            };
            self.consecutive_losses = if self.consecutive_losses < u32::MAX {
                self.consecutive_losses + 1
            } else {
                u32::MAX
            };
            if self.consecutive_losses >= self.circuit_breaker_losses {
                self.breaker = BreakerState::Tripped { since_ms: now_ms };
            }
        } else {
            self.consecutive_losses = 0;
        }
    }

    /// Replace the tracked total exposure.
    pub fn update_exposure(&mut self, exposure: u64)
        ensures
            *final(self) == (RiskManager { total_exposure: exposure, ..*old(self) }),
    {
        self.total_exposure = exposure;
    }

    /// Reset the daily counters at the day boundary and re-arm the
    /// breaker.
    pub fn reset_daily(&mut self)
        ensures
            *final(self) == (RiskManager {
                daily_loss: 0,
                consecutive_losses: 0,
                breaker: BreakerState::Armed,
                ..*old(self)
            }),
    {
        self.daily_loss = 0;
        self.consecutive_losses = 0;
        self.breaker = BreakerState::Armed;
    }

    /// The realized loss so far today, micro-USDC.
    pub fn daily_loss(&self) -> (r: u64)
        ensures
            r == self.daily_loss,
    {
        self.daily_loss
    }

    /// Whether the circuit breaker is currently tripped.
    pub fn is_circuit_breaker_active(&self) -> (r: bool)
        ensures
            r == (self.breaker is Tripped),
    {
        match self.breaker {
            BreakerState::Armed => false,
            BreakerState::Tripped { .. } => true,
        }
    }
}

/// The breaker trips after exactly the configured number of consecutive
/// losses: one more loss trips it exactly when the run reaches the
/// threshold, and any intervening win resets the run and leaves the
/// breaker untouched.
pub proof fn lemma_breaker_trips_at_threshold(rm: RiskManager, pnl: i64, now_ms: u64)
    requires
        rm.well_formed(),
        rm.breaker == BreakerState::Armed,
        rm.consecutive_losses < u32::MAX,
    ensures
        pnl < 0 && rm.consecutive_losses + 1 >= rm.circuit_breaker_losses
            ==> spec_record_trade(rm, pnl, now_ms).breaker
                == (BreakerState::Tripped { since_ms: now_ms }),
        pnl < 0 && rm.consecutive_losses + 1 < rm.circuit_breaker_losses
            ==> spec_record_trade(rm, pnl, now_ms).breaker == BreakerState::Armed,
        pnl >= 0 ==> spec_record_trade(rm, pnl, now_ms).consecutive_losses == 0
            && spec_record_trade(rm, pnl, now_ms).breaker == BreakerState::Armed,
{
}

/// While the breaker is tripped, trading stays blocked strictly before
/// the cooldown has elapsed and is allowed once it has.
pub proof fn lemma_cooldown_gates_trading(rm: RiskManager, since_ms: u64, now_ms: u64)
    requires
        rm.breaker == (BreakerState::Tripped { since_ms }),
        now_ms >= since_ms,
    ensures
        spec_can_trade(rm, now_ms) <==> (now_ms - since_ms) / 1000 >= rm.cooldown_seconds,
{
}

} // verus!
