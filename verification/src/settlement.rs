//! Settlement of resolved markets: resolution classification, batch
//! planning and report aggregation.
//!
//! The chain calls happen at the boundary; this module decides which
//! positions are redeemable, how large each redemption batch may be,
//! how recovered funds are attributed, and what the sweep report says.

use vstd::prelude::*;

use crate::ports::RedemptionResult;

verus! {

/// Status of a market resolution check.
#[derive(Debug, Clone, Copy, PartialEq, Eq, Structural)]
pub enum ResolutionStatus {
    /// The market has not yet resolved.
    Pending,
    /// The market resolved and YES won.
    ResolvedYes,
    /// The market resolved and NO won.
    ResolvedNo,
    /// The market was voided.
    Voided,
}

/// Summary of one settlement attempt.
#[derive(Debug, Clone)]
pub struct SettlementResult {
    /// Market condition id.
    pub market_id: String,
    /// Resolution outcome.
    pub resolution: ResolutionStatus,
    /// Funds recovered from redemption, micro-USDC.
    pub usdc_recovered: u64,
    /// Transaction hash of the redemption, if it went on-chain.
    pub tx_hash: Option<String>,
    /// Whether the settlement succeeded.
    pub success: bool,
    /// The error when it failed.
    pub error: Option<String>,
}

/// Total recovered over the successful results.
pub open spec fn spec_total_recovered(s: Seq<SettlementResult>) -> int
    decreases s.len(),
{
    if s.len() == 0 {
        0
    } else {
        spec_total_recovered(s.drop_last()) + if s.last().success {
            s.last().usdc_recovered as int
        } else {
            0int
        }
    }
}

/// Number of successful results.
pub open spec fn spec_settled_count(s: Seq<SettlementResult>) -> int
    decreases s.len(),
{
    if s.len() == 0 {
        0
    } else {
        spec_settled_count(s.drop_last()) + if s.last().success {
            1int
        } else {
            0int
        }
    }
}

/// Aggregated report of one settlement sweep.
#[derive(Debug, Clone)]
pub struct SettlementReport {
    /// The individual results.
    pub results: Vec<SettlementResult>,
    /// Total recovered across successful settlements, micro-USDC
    /// (saturating).
    pub total_usdc_recovered: u64,
    /// Markets successfully settled.
    pub markets_settled: usize,
    /// Markets that failed settlement.
    pub markets_failed: usize,
    /// When the sweep ran, Unix milliseconds.
    pub timestamp_ms: u64,
}

/// Settlement policy: dust threshold and batch size.
#[derive(Debug, Clone)]
pub struct Settlement {
    /// Minimum value worth redeeming on-chain, micro-USDC.
    pub min_redemption_value: u64,
    /// Maximum positions redeemed in one transaction.
    pub max_batch_size: usize,
}

impl Settlement {
    /// The default policy: a ten-cent dust threshold, twenty positions
    /// per batch.
    pub fn new() -> (r: Settlement)
        ensures
            r.min_redemption_value == 100_000,
            r.max_batch_size == 20,
    {
        Settlement { min_redemption_value: 100_000, max_batch_size: 20 }
    }

    /// A policy with custom thresholds.
    pub fn with_config(min_redemption_value: u64, max_batch_size: usize) -> (r: Settlement)
        ensures
            r.min_redemption_value == min_redemption_value,
            r.max_batch_size == max_batch_size,
    {
        Settlement { min_redemption_value, max_batch_size }
    }

    /// Classify a market from the chain's resolution flag.  A resolved
    /// market is reported as a YES resolution; the payout vector query
    /// that would distinguish the winning side stays at the boundary.
    pub fn classify_resolution(&self, resolved: bool) -> (r: ResolutionStatus)
        ensures
            r == if resolved {
                ResolutionStatus::ResolvedYes
            } else {
                ResolutionStatus::Pending
            },
            (r is ResolvedYes || r is ResolvedNo || r is Voided) <==> resolved,
    {
        if resolved {
            ResolutionStatus::ResolvedYes
        } else {
            ResolutionStatus::Pending
        }
    }

    /// Whether a classified position belongs in the redemption queue:
    /// everything but a pending market.
    pub fn is_redeemable(&self, status: ResolutionStatus) -> (r: bool)
        ensures
            r == !(status is Pending),
    {
        match status {
            ResolutionStatus::Pending => false,
            _ => true,
        }
    }

    /// How many of `remaining` queued positions the next batch takes.
    pub fn next_batch_size(&self, remaining: usize) -> (r: usize)
        ensures
            r == if remaining <= self.max_batch_size {
                remaining as int
            } else {
                self.max_batch_size as int
            },
    {
        if remaining <= self.max_batch_size {
            remaining
        } else {
            self.max_batch_size
        }
    }

    /// Attribute a batch redemption's recovery evenly across the
    /// positions it redeemed; zero when nothing was redeemed.
    pub fn distribute_recovered(&self, redemption: &RedemptionResult) -> (r: u64)
        ensures
            r == if redemption.positions_redeemed > 0 {
                redemption.usdc_recovered as int / redemption.positions_redeemed as int
            } else {
                0int
            },
    {
        if redemption.positions_redeemed > 0 {
            proof {
                assert(redemption.usdc_recovered as int / redemption.positions_redeemed as int
                    <= redemption.usdc_recovered) by (nonlinear_arith)
                    requires
                        redemption.positions_redeemed >= 1,
                        redemption.usdc_recovered >= 0,
                ;
            }
            ((redemption.usdc_recovered as u128)
                / (redemption.positions_redeemed as u128)) as u64
        } else {
            0
        }
    }

    /// Assemble the result rows of one successfully redeemed batch:
    /// every market of the chunk is marked settled, carries the batch's
    /// transaction hash, and is attributed an even share of the
    /// recovery.
    pub fn chunk_results_redeemed(
        &self,
        condition_ids: &Vec<String>,
        redemption: &RedemptionResult,
    ) -> (r: Vec<SettlementResult>)
        ensures
            r@.len() == condition_ids@.len(),
            forall|k: int|
                0 <= k < r@.len() ==> {
                    &&& (#[trigger] r@[k]).market_id@ == condition_ids@[k]@
                    &&& r@[k].resolution == ResolutionStatus::ResolvedYes
                    &&& r@[k].usdc_recovered == (if redemption.positions_redeemed > 0 {
                        redemption.usdc_recovered as int
                            / redemption.positions_redeemed as int
                    } else {
                        0int
                    })
                    &&& r@[k].tx_hash matches Some(h) && h@ == redemption.tx_hash@
                    &&& r@[k].success
                    &&& r@[k].error is None
                },
    {
        let per_position: u64 = self.distribute_recovered(redemption);
        let mut out: Vec<SettlementResult> = Vec::new();
        let mut k: usize = 0;
        while k < condition_ids.len()
            invariant
                0 <= k <= condition_ids@.len(),
                out@.len() == k,
                forall|m: int|
                    0 <= m < k ==> {
                        &&& (#[trigger] out@[m]).market_id@ == condition_ids@[m]@
                        &&& out@[m].resolution == ResolutionStatus::ResolvedYes
                        &&& out@[m].usdc_recovered == per_position
                        &&& out@[m].tx_hash matches Some(h) && h@ == redemption.tx_hash@
                        &&& out@[m].success
                        &&& out@[m].error is None
                    },
                per_position == (if redemption.positions_redeemed > 0 {
                    redemption.usdc_recovered as int / redemption.positions_redeemed as int
                } else {
                    0int
                }),
            decreases condition_ids@.len() - k,
        {
            out.push(SettlementResult {
                market_id: condition_ids[k].clone(),
                resolution: ResolutionStatus::ResolvedYes,
                usdc_recovered: per_position,
                tx_hash: Some(redemption.tx_hash.clone()),
                success: true,
                error: None,
            });
            k = k + 1;
        }
        out
    }

    /// Assemble the result rows of one batch whose redemption failed:
    /// every market of the chunk is marked failed with the error text
    /// and nothing recovered.
    pub fn chunk_results_failed(&self, condition_ids: &Vec<String>, error: &String) -> (r: Vec<
        SettlementResult,
    >)
        ensures
            r@.len() == condition_ids@.len(),
            forall|k: int|
                0 <= k < r@.len() ==> {
                    &&& (#[trigger] r@[k]).market_id@ == condition_ids@[k]@
                    &&& r@[k].resolution == ResolutionStatus::ResolvedYes
                    &&& r@[k].usdc_recovered == 0
                    &&& r@[k].tx_hash is None
                    &&& !r@[k].success
                    &&& r@[k].error matches Some(e) && e@ == error@
                },
    {
        let mut out: Vec<SettlementResult> = Vec::new();
        let mut k: usize = 0;
        while k < condition_ids.len()
            invariant
                0 <= k <= condition_ids@.len(),
                out@.len() == k,
                forall|m: int|
                    0 <= m < k ==> {
                        &&& (#[trigger] out@[m]).market_id@ == condition_ids@[m]@
                        &&& out@[m].resolution == ResolutionStatus::ResolvedYes
                        &&& out@[m].usdc_recovered == 0
                        &&& out@[m].tx_hash is None
                        &&& !out@[m].success
                        &&& out@[m].error matches Some(e) && e@ == error@
                    },
            decreases condition_ids@.len() - k,
        {
            out.push(SettlementResult {
                market_id: condition_ids[k].clone(),
                resolution: ResolutionStatus::ResolvedYes,
                usdc_recovered: 0,
                tx_hash: None,
                success: false,
                error: Some(error.clone()),
            });
            k = k + 1;
        }
        out
    }

    /// Build the sweep report: total recovered over the successful
    /// results (saturating), and the settled and failed counts.
    pub fn aggregate_report(&self, results: Vec<SettlementResult>, now_ms: u64) -> (r:
        SettlementReport)
        ensures
            r.results == results,
            r.timestamp_ms == now_ms,
            r.markets_settled == spec_settled_count(results@),
            r.markets_failed == results@.len() - spec_settled_count(results@),
            ({
                let exact = spec_total_recovered(results@);
                r.total_usdc_recovered == if exact <= u64::MAX {
                    exact
                } else {
                    u64::MAX as int
                }
            }),
    {
        let mut total: u128 = 0;
        let mut settled: usize = 0;
        let mut i: usize = 0;
        proof {
            assert(results@.subrange(0, 0) =~= Seq::<SettlementResult>::empty());
            lemma_report_bounds(results@);
        }
        while i < results.len()
            invariant
                0 <= i <= results@.len(),
                total == spec_total_recovered(results@.subrange(0, i as int)),
                settled == spec_settled_count(results@.subrange(0, i as int)),
                total <= (i as int) * (u64::MAX as int),
                settled <= i,
            decreases results@.len() - i,
        {
            proof {
                assert(results@.subrange(0, i + 1).drop_last()
                    =~= results@.subrange(0, i as int));
                assert((i as int) * (u64::MAX as int) + (u64::MAX as int)
                    == (i + 1) * (u64::MAX as int)) by (nonlinear_arith);
            }
            if results[i].success {
                total = total + results[i].usdc_recovered as u128;
                settled = settled + 1;
            }
            i = i + 1;
        }
        proof {
            assert(results@.subrange(0, results@.len() as int) =~= results@);
            lemma_report_bounds(results@);
        }
        let total_usdc_recovered: u64 = if total > u64::MAX as u128 {
            u64::MAX
        } else {
            total as u64
        };
        let markets_failed: usize = results.len() - settled;
        SettlementReport {
            results,
            total_usdc_recovered,
            markets_settled: settled,
            markets_failed,
            timestamp_ms: now_ms,
        }
    }
}

/// The settled count never exceeds the result count, and the total
/// never exceeds count times the largest value.
proof fn lemma_report_bounds(s: Seq<SettlementResult>)
    ensures
        0 <= spec_settled_count(s) <= s.len(),
        0 <= spec_total_recovered(s) <= s.len() * (u64::MAX as int),
    decreases s.len(),
{
    if s.len() > 0 {
        lemma_report_bounds(s.drop_last());
        assert((s.len() - 1) * (u64::MAX as int) + (u64::MAX as int)
            == s.len() * (u64::MAX as int)) by (nonlinear_arith);
    }
}

} // verus!
