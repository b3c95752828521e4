//! Round trips of the persistence codecs: encoded lines decode back to
//! identical records, and tampered lines are rejected.

use lmsr_bot::codec::{
    decode_snapshot, decode_trade_record, encode_snapshot, encode_trade_record,
};
use lmsr_bot::ports::{BotStateSnapshot, TradeRecord};
use lmsr_bot::trade::{Order, OrderType, TradeSide};

fn sample_record() -> TradeRecord {
    TradeRecord {
        id: String::from("trade-7"),
        order_id: String::from("ord-42"),
        market_id: String::from("cond-1"),
        side: String::from("BUY"),
        price: 500_000,
        size: 41_660_000,
        lmsr_fair_value: 500_000,
        edge: 100_000,
        kelly_fraction: 250_000,
        fees: 0,
        timestamp_ms: 1_705_312_800_000,
    }
}

#[test]
fn trade_record_round_trips() {
    let record = sample_record();
    let line = encode_trade_record(&record);
    let back = decode_trade_record(&line).expect("canonical line must decode");
    assert_eq!(back.id, record.id);
    assert_eq!(back.order_id, record.order_id);
    assert_eq!(back.market_id, record.market_id);
    assert_eq!(back.side, record.side);
    assert_eq!(back.price, record.price);
    assert_eq!(back.size, record.size);
    assert_eq!(back.lmsr_fair_value, record.lmsr_fair_value);
    assert_eq!(back.edge, record.edge);
    assert_eq!(back.kelly_fraction, record.kelly_fraction);
    assert_eq!(back.fees, record.fees);
    assert_eq!(back.timestamp_ms, record.timestamp_ms);
}

#[test]
fn trade_record_negative_edge_round_trips() {
    let record = TradeRecord { edge: -25_000, ..sample_record() };
    let line = encode_trade_record(&record);
    let back = decode_trade_record(&line).expect("canonical line must decode");
    assert_eq!(back.edge, -25_000);
}

#[test]
fn trade_decoder_rejects_tampered_lines() {
    let line = encode_trade_record(&sample_record());
    assert!(decode_trade_record("").is_none());
    assert!(decode_trade_record("{}").is_none());
    assert!(decode_trade_record(&line[..line.len() - 1]).is_none());
    let mut padded = line.clone();
    padded.push(' ');
    assert!(decode_trade_record(&padded).is_none());
}

fn sample_snapshot() -> BotStateSnapshot {
    BotStateSnapshot {
        version: String::from("1"),
        timestamp_ms: 1_705_312_800_000,
        open_orders: vec![
            Order {
                id: String::from("ord-1"),
                token_id: String::from("yes-1"),
                side: TradeSide::Buy,
                price: 500_000,
                size: 41_660_000,
                order_type: OrderType::Gtc,
                post_only: true,
                timestamp_ms: 1_705_312_700_000,
            },
            Order {
                id: String::from("ord-2"),
                token_id: String::from("yes-2"),
                side: TradeSide::Sell,
                price: 600_000,
                size: 5_000_000,
                order_type: OrderType::Gtc,
                post_only: true,
                timestamp_ms: 1_705_312_750_000,
            },
        ],
        positions: vec![
            (String::from("yes-1"), 10_000_000),
            (String::from("yes-2"), 2_000_000),
        ],
        cumulative_pnl: -3_000_000,
        daily_loss: 3_000_000,
    }
}

#[test]
fn snapshot_round_trips_orders_and_risk_state() {
    let snapshot = sample_snapshot();
    let lines = encode_snapshot(&snapshot);
    assert_eq!(lines.len(), 1 + 2 + 2);
    let back = decode_snapshot(&lines).expect("canonical snapshot must decode");
    assert_eq!(back.version, snapshot.version);
    assert_eq!(back.timestamp_ms, snapshot.timestamp_ms);
    assert_eq!(back.open_orders.len(), 2);
    assert_eq!(back.open_orders[0].id, "ord-1");
    assert_eq!(back.open_orders[0].side, TradeSide::Buy);
    assert_eq!(back.open_orders[1].price, 600_000);
    assert_eq!(back.positions, snapshot.positions);
    assert_eq!(back.cumulative_pnl, -3_000_000);
    assert_eq!(back.daily_loss, 3_000_000);
}

#[test]
fn empty_snapshot_round_trips() {
    let snapshot = BotStateSnapshot {
        version: String::from("1"),
        timestamp_ms: 0,
        open_orders: Vec::new(),
        positions: Vec::new(),
        cumulative_pnl: 0,
        daily_loss: 0,
    };
    let lines = encode_snapshot(&snapshot);
    assert_eq!(lines.len(), 1);
    let back = decode_snapshot(&lines).expect("canonical snapshot must decode");
    assert!(back.open_orders.is_empty());
    assert!(back.positions.is_empty());
}

#[test]
fn negative_pnl_snapshot_round_trips() {
    let snapshot = BotStateSnapshot { cumulative_pnl: -3_000_000, ..sample_snapshot() };
    let lines = encode_snapshot(&snapshot);
    let back = decode_snapshot(&lines).expect("canonical snapshot must decode");
    assert_eq!(back.cumulative_pnl, -3_000_000);
}

#[test]
fn snapshot_decoder_rejects_tampered_lines() {
    let mut lines = encode_snapshot(&sample_snapshot());
    // Drop one order line: the header count no longer matches.
    lines.remove(1);
    assert!(decode_snapshot(&lines).is_none());
    // A lone scalar line is not a snapshot either.
    assert!(decode_snapshot(&vec![String::from("{\"version\":\"1\"}")]).is_none());
    // Truncate the last line.
    let mut lines = encode_snapshot(&sample_snapshot());
    let last = lines.len() - 1;
    let shortened = lines[last][..lines[last].len() - 1].to_string();
    lines[last] = shortened;
    assert!(decode_snapshot(&lines).is_none());
}
