//! Persistence layout: where the state snapshot and the append-only
//! trade logs live, and the pure selection helpers over loaded records.
//!
//! Reading and writing files is boundary work; this module fixes the
//! paths (daily trade files named by UTC date), and filters loaded
//! records.  Snapshot writes at the boundary go to the temporary path
//! first and are renamed over the final path, so an interrupted write
//! leaves the prior snapshot intact.

use vstd::prelude::*;

use vstd::multiset::Multiset;

use crate::codec::{decode_trade_record, spec_encode_trade};
use crate::ports::TradeRecord;

verus! {

/// The UTC calendar date, as `YYYY-MM-DD` text, of a Unix-millisecond
/// timestamp.
pub uninterp spec fn date_string_of(ms: int) -> Seq<char>;

/// Relies on chrono's UTC conversion and formatting: the calendar date
/// of the timestamp, a function of the argument alone.
#[verifier::external_body]
fn utc_date_string(ms: u64) -> (r: String)
    ensures
        r@ == date_string_of(ms as int),
{
    match chrono::DateTime::<chrono::Utc>::from_timestamp_millis(ms as i64) {
        Some(dt) => dt.format("%Y-%m-%d").to_string(),
        None => String::new(),
    }
}

/// Atomic JSON state store: the snapshot path and the temporary path
/// used for atomic replacement.
#[derive(Debug, Clone)]
pub struct StateStore {
    /// Path of the snapshot file.
    pub state_path: String,
    /// Temporary path written first, then renamed over the snapshot.
    pub tmp_path: String,
}

impl StateStore {
    /// Place the store inside a data directory.
    pub fn new(data_dir: &str) -> (r: StateStore)
        ensures
            r.state_path@ == data_dir@ + "/state.json"@,
            r.tmp_path@ == data_dir@ + "/state.json.tmp"@,
    {
        let mut state_path: String = String::from_str(data_dir);
        state_path.append("/state.json");
        let mut tmp_path: String = String::from_str(data_dir);
        tmp_path.append("/state.json.tmp");
        StateStore { state_path, tmp_path }
    }
}

/// Append-only trade logger: daily trade files and the profit-and-loss
/// summary file, named under a data directory.
#[derive(Debug, Clone)]
pub struct TradeLogger {
    /// Directory of the daily trade files.
    pub trades_dir: String,
    /// Directory of the profit-and-loss summaries.
    pub pnl_dir: String,
}

impl TradeLogger {
    /// Place the logger inside a data directory.
    pub fn new(data_dir: &str) -> (r: TradeLogger)
        ensures
            r.trades_dir@ == data_dir@ + "/trades"@,
            r.pnl_dir@ == data_dir@ + "/pnl"@,
    {
        let mut trades_dir: String = String::from_str(data_dir);
        trades_dir.append("/trades");
        let mut pnl_dir: String = String::from_str(data_dir);
        pnl_dir.append("/pnl");
        TradeLogger { trades_dir, pnl_dir }
    }

    /// The file that records trades executed at `now_ms`:
    /// `<trades_dir>/<YYYY-MM-DD>.jsonl`.
    pub fn trade_file_path(&self, now_ms: u64) -> (r: String)
        ensures
            r@ == self.trades_dir@ + "/"@ + date_string_of(now_ms as int) + ".jsonl"@,
    {
        let date: String = utc_date_string(now_ms);
        let mut path: String = self.trades_dir.clone();
        path.append("/");
        path.append(date.as_str());
        path.append(".jsonl");
        proof {
            assert(path@ =~= self.trades_dir@ + "/"@ + date_string_of(now_ms as int)
                + ".jsonl"@);
        }
        path
    }

    /// The file that accumulates daily summaries:
    /// `<pnl_dir>/daily_pnl.jsonl`.
    pub fn pnl_file_path(&self) -> (r: String)
        ensures
            r@ == self.pnl_dir@ + "/daily_pnl.jsonl"@,
    {
        let mut path: String = self.pnl_dir.clone();
        path.append("/daily_pnl.jsonl");
        path
    }
}

/// Whether a record's timestamp lies in the inclusive range.
pub open spec fn spec_in_range(t: TradeRecord, from_ms: u64, to_ms: u64) -> bool {
    from_ms <= t.timestamp_ms <= to_ms
}

/// The range predicate as a single closure value, so every use names
/// the same function.
pub open spec fn spec_range_pred(from_ms: u64, to_ms: u64) -> spec_fn(TradeRecord) -> bool {
    |t: TradeRecord| spec_in_range(t, from_ms, to_ms)
}

/// Keep the records whose timestamps lie within `[from_ms, to_ms]`,
/// in their original order.
pub fn filter_trades_range(trades: Vec<TradeRecord>, from_ms: u64, to_ms: u64) -> (r: Vec<
    TradeRecord,
>)
    ensures
        r@ == trades@.filter(spec_range_pred(from_ms, to_ms)),
{
    let mut out: Vec<TradeRecord> = Vec::new();
    let mut i: usize = 0;
    proof {
        reveal_with_fuel(Seq::<TradeRecord>::filter, 2);
        assert(trades@.subrange(0, 0) =~= Seq::<TradeRecord>::empty());
        assert(trades@.subrange(0, 0).filter(spec_range_pred(from_ms, to_ms))
            =~= Seq::<TradeRecord>::empty());
    }
    while i < trades.len()
        invariant
            0 <= i <= trades@.len(),
            out@ == trades@.subrange(0, i as int).filter(spec_range_pred(from_ms, to_ms)),
        decreases trades@.len() - i,
    {
        let ghost prefix = trades@.subrange(0, i as int);
        let t = &trades[i];
        if from_ms <= t.timestamp_ms && t.timestamp_ms <= to_ms {
            out.push(t.clone_record());
        }
        i = i + 1;
        proof {
            reveal_with_fuel(Seq::<TradeRecord>::filter, 2);
            let next = trades@.subrange(0, i as int);
            assert(next.drop_last() =~= prefix);
            assert(next.last() == trades@[i - 1]);
        }
    }
    proof {
        assert(trades@.subrange(0, trades@.len() as int) =~= trades@);
    }
    out
}

impl TradeRecord {
    /// A field-by-field copy of the record.
    pub fn clone_record(&self) -> (r: TradeRecord)
        ensures
            r == *self,
    {
        TradeRecord {
            id: self.id.clone(),
            order_id: self.order_id.clone(),
            market_id: self.market_id.clone(),
            side: self.side.clone(),
            price: self.price,
            size: self.size,
            lmsr_fair_value: self.lmsr_fair_value,
            edge: self.edge,
            kelly_fraction: self.kelly_fraction,
            fees: self.fees,
            timestamp_ms: self.timestamp_ms,
        }
    }
}

/// Records are ordered by execution time.
pub open spec fn spec_sorted_by_time(s: Seq<TradeRecord>) -> bool {
    forall|i: int, j: int| 0 <= i <= j < s.len() ==> s[i].timestamp_ms <= s[j].timestamp_ms
}

/// One of the `lines` is the canonical line of `rec`.
pub open spec fn spec_line_for(lines: Seq<String>, rec: TradeRecord) -> bool {
    exists|j: int| 0 <= j < lines.len() && lines[j]@ == spec_encode_trade(rec)
}

/// Every record of `recs` re-encodes to one of the `lines`.
pub open spec fn spec_faithful_to_lines(lines: Seq<String>, recs: Seq<TradeRecord>) -> bool {
    forall|k: int| 0 <= k < recs.len() ==> spec_line_for(lines, #[trigger] recs[k])
}

/// Decode the lines of the trade log, skipping any line that is not a
/// canonical record.  Every record handed back is faithful: its
/// canonical line stands among the inputs.
pub fn decode_trade_lines(lines: &Vec<String>) -> (r: Vec<TradeRecord>)
    ensures
        r@.len() <= lines@.len(),
        spec_faithful_to_lines(lines@, r@),
{
    let mut out: Vec<TradeRecord> = Vec::new();
    let mut i: usize = 0;
    while i < lines.len()
        invariant
            0 <= i <= lines@.len(),
            out@.len() <= i,
            spec_faithful_to_lines(lines@, out@),
        decreases lines@.len() - i,
    {
        let ghost before = out@;
        match decode_trade_record(lines[i].as_str()) {
            Some(record) => {
                proof {
                    assert(lines@[i as int]@ == spec_encode_trade(record));
                    assert(spec_line_for(lines@, record));
                }
                out.push(record);
                proof {
                    assert forall|k: int| 0 <= k < out@.len() implies spec_line_for(
                        lines@,
                        #[trigger] out@[k],
                    ) by {
                        if k < before.len() {
                            assert(out@[k] == before[k]);
                        } else {
                            assert(out@[k] == record);
                        }
                    }
                }
            },
            None => {},
        }
        i = i + 1;
    }
    out
}

/// Sort trade records by execution time: the result is ordered and
/// holds exactly the given records.
pub fn sort_trades_by_timestamp(trades: Vec<TradeRecord>) -> (r: Vec<TradeRecord>)
    ensures
        spec_sorted_by_time(r@),
        r@.to_multiset() == trades@.to_multiset(),
{
    let mut work: Vec<TradeRecord> = trades;
    let ghost all = work@;
    let mut out: Vec<TradeRecord> = Vec::new();
    proof {
        out@.to_multiset_ensures();
        work@.to_multiset_ensures();
        assert(out@.to_multiset().add(work@.to_multiset()) =~= all.to_multiset());
    }
    while work.len() > 0
        invariant
            spec_sorted_by_time(out@),
            out@.to_multiset().add(work@.to_multiset()) == all.to_multiset(),
            forall|a: int, b: int|
                0 <= a < out@.len() && 0 <= b < work@.len()
                    ==> out@[a].timestamp_ms <= work@[b].timestamp_ms,
        decreases work@.len(),
    {
        // Find the earliest remaining record.
        let mut min_idx: usize = 0;
        let mut j: usize = 1;
        while j < work.len()
            invariant
                work@.len() > 0,
                0 <= min_idx < j <= work@.len(),
                forall|m: int|
                    0 <= m < j ==> work@[min_idx as int].timestamp_ms
                        <= #[trigger] work@[m].timestamp_ms,
            decreases work@.len() - j,
        {
            if work[j].timestamp_ms < work[min_idx].timestamp_ms {
                min_idx = j;
            }
            j = j + 1;
        }
        let ghost pre = work@;
        let picked: TradeRecord = work.remove(min_idx);
        proof {
            pre.to_multiset_ensures();
            out@.to_multiset_ensures();
            assert(pre.contains(pre[min_idx as int]));
            assert(pre.to_multiset().count(picked) > 0);
            // Moving the minimum keeps the combined contents.
            assert(out@.push(picked).to_multiset().add(work@.to_multiset())
                =~= out@.to_multiset().add(pre.to_multiset()));
            // Every remaining record is one of the survivors of `pre`.
            assert forall|b: int| 0 <= b < work@.len() implies
                picked.timestamp_ms <= work@[b].timestamp_ms by {
                assert(work@ == pre.remove(min_idx as int));
                if b < min_idx {
                    assert(work@[b] == pre[b]);
                } else {
                    assert(work@[b] == pre[b + 1]);
                }
            }
        }
        out.push(picked);
    }
    proof {
        work@.to_multiset_ensures();
        assert(work@.to_multiset() =~= Multiset::<TradeRecord>::empty());
        assert(out@.to_multiset().add(work@.to_multiset()) =~= out@.to_multiset());
    }
    out
}

/// The trade log as the engine reads it back: the canonical records of
/// the given lines, ordered by execution time.
pub fn load_trades_from_lines(lines: &Vec<String>) -> (r: Vec<TradeRecord>)
    ensures
        spec_sorted_by_time(r@),
        r@.len() <= lines@.len(),
        spec_faithful_to_lines(lines@, r@),
{
    let decoded: Vec<TradeRecord> = decode_trade_lines(lines);
    let ghost decoded_view = decoded@;
    let sorted: Vec<TradeRecord> = sort_trades_by_timestamp(decoded);
    proof {
        sorted@.to_multiset_ensures();
        decoded_view.to_multiset_ensures();
        assert forall|k: int| 0 <= k < sorted@.len() implies spec_line_for(
            lines@,
            #[trigger] sorted@[k],
        ) by {
            assert(sorted@.contains(sorted@[k]));
            assert(sorted@.to_multiset().count(sorted@[k]) > 0);
            assert(decoded_view.to_multiset().count(sorted@[k]) > 0);
            assert(decoded_view.contains(sorted@[k]));
            let m = choose|m: int| 0 <= m < decoded_view.len() && decoded_view[m] == sorted@[k];
            assert(spec_line_for(lines@, decoded_view[m]));
        }
    }
    sorted
}

/// The persistence facade: the snapshot store and the trade logger
/// used by the rest of the system.
#[derive(Debug, Clone)]
pub struct RepositoryImpl {
    /// The atomic snapshot store.
    pub state_store: StateStore,
    /// The append-only trade logger.
    pub trade_logger: TradeLogger,
}

impl RepositoryImpl {
    /// Assemble the facade from its two stores.
    pub fn new(state_store: StateStore, trade_logger: TradeLogger) -> (r: RepositoryImpl)
        ensures
            r.state_store == state_store,
            r.trade_logger == trade_logger,
    {
        RepositoryImpl { state_store, trade_logger }
    }
}

} // verus!
