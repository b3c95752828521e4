//! Canonical JSON lines for persisted records: trade-log entries and
//! the crash-recovery snapshot.
//!
//! The encoder writes one canonical line per record, pinned character
//! by character by its contract.  The decoder parses a line and then
//! re-encodes the result, accepting exactly the lines the encoder
//! writes: whenever it returns a record, the input was that record's
//! canonical line.  The inverse direction, that every encoded line is
//! accepted back, is exercised by the round-trip tests.

use vstd::prelude::*;

use crate::clob::{
    lemma_digits_prefix_monotone, lemma_u64_chars_decode, spec_digit_value, spec_digits_value,
};
use crate::numfmt::{append_i64, append_u64, spec_i64_chars, spec_u64_chars, string_eq_str};
use crate::ports::{BotStateSnapshot, TradeRecord};
use crate::trade::{Order, OrderType, TradeSide};

verus! {

/// Text that may stand inside a quoted JSON field: no quote character.
pub open spec fn spec_text_plain(t: Seq<char>) -> bool {
    forall|m: int| 0 <= m < t.len() ==> t[m] != '"'
}

/// A trade record whose string fields may stand on the wire unescaped.
pub open spec fn spec_trade_wire_ok(r: TradeRecord) -> bool {
    &&& spec_text_plain(r.id@)
    &&& spec_text_plain(r.order_id@)
    &&& spec_text_plain(r.market_id@)
    &&& spec_text_plain(r.side@)
}

/// `s` is the canonical line of the wire-clean record `rec`.
pub open spec fn spec_trade_canon(s: Seq<char>, rec: TradeRecord) -> bool {
    spec_trade_wire_ok(rec) && s == spec_encode_trade(rec)
}

/// Two records carry the same values, compared on string views.
pub open spec fn spec_trade_fields_match(p: TradeRecord, rec: TradeRecord) -> bool {
    &&& p.id@ == rec.id@
    &&& p.order_id@ == rec.order_id@
    &&& p.market_id@ == rec.market_id@
    &&& p.side@ == rec.side@
    &&& p.price == rec.price
    &&& p.size == rec.size
    &&& p.lmsr_fair_value == rec.lmsr_fair_value
    &&& p.edge == rec.edge
    &&& p.kelly_fraction == rec.kelly_fraction
    &&& p.fees == rec.fees
    &&& p.timestamp_ms == rec.timestamp_ms
}

/// The first quote character at or after `i`, or the length.
pub open spec fn spec_quote_index(s: Seq<char>, i: int) -> int
    decreases s.len() - i when 0 <= i <= s.len()
{
    if i >= s.len() {
        s.len() as int
    } else if s[i] == '"' {
        i
    } else {
        spec_quote_index(s, i + 1)
    }
}

/// The end of the digit run starting at `i`: the first index holding a
/// non-digit, or the length.
pub open spec fn spec_digit_run_end(s: Seq<char>, i: int) -> int
    decreases s.len() - i when 0 <= i <= s.len()
{
    if i >= s.len() {
        s.len() as int
    } else if spec_digit_value(s[i]) is None {
        i
    } else {
        spec_digit_run_end(s, i + 1)
    }
}

/// A quote-free stretch followed by a quote pins the quote index.
proof fn lemma_quote_index_at(s: Seq<char>, from: int, to: int)
    requires
        0 <= from <= to <= s.len(),
        forall|m: int| from <= m < to ==> s[m] != '"',
        to == s.len() || s[to] == '"',
    ensures
        spec_quote_index(s, from) == to,
    decreases to - from,
{
    if from < to {
        lemma_quote_index_at(s, from + 1, to);
    }
}

/// An all-digit stretch followed by a non-digit pins the run end.
proof fn lemma_digit_run_at(s: Seq<char>, from: int, to: int)
    requires
        0 <= from <= to <= s.len(),
        forall|m: int| from <= m < to ==> (#[trigger] spec_digit_value(s[m])) is Some,
        to == s.len() || spec_digit_value(s[to]) is None,
    ensures
        spec_digit_run_end(s, from) == to,
    decreases to - from,
{
    if from < to {
        lemma_digit_run_at(s, from + 1, to);
    }
}

/// Basic shape of the digit run: it spans only digits and ends at the
/// length or at a non-digit.
proof fn lemma_run_end_bounds(s: Seq<char>, i: int)
    requires
        0 <= i <= s.len(),
    ensures
        i <= spec_digit_run_end(s, i) <= s.len(),
        forall|m: int|
            i <= m < spec_digit_run_end(s, i) ==> (#[trigger] spec_digit_value(s[m])) is Some,
        spec_digit_run_end(s, i) < s.len() ==> spec_digit_value(
            s[spec_digit_run_end(s, i)],
        ) is None,
    decreases s.len() - i,
{
    if i < s.len() && spec_digit_value(s[i]) is Some {
        lemma_run_end_bounds(s, i + 1);
    }
}

/// The canonical JSON line of a trade record.
#[verifier::opaque]
pub open spec fn spec_encode_trade(r: TradeRecord) -> Seq<char> {
    "{\"id\":\""@ + r.id@
        + "\",\"order_id\":\""@ + r.order_id@
        + "\",\"market_id\":\""@ + r.market_id@
        + "\",\"side\":\""@ + r.side@
        + "\",\"price\":"@ + spec_u64_chars(r.price as int)
        + ",\"size\":"@ + spec_u64_chars(r.size as int)
        + ",\"lmsr_fair_value\":"@ + spec_u64_chars(r.lmsr_fair_value as int)
        + ",\"edge\":"@ + spec_i64_chars(r.edge as int)
        + ",\"kelly_fraction\":"@ + spec_u64_chars(r.kelly_fraction as int)
        + ",\"fees\":"@ + spec_u64_chars(r.fees as int)
        + ",\"timestamp_ms\":"@ + spec_u64_chars(r.timestamp_ms as int)
        + "}"@
}

/// Encode a trade record as its canonical JSON line.
pub fn encode_trade_record(r: &TradeRecord) -> (out: String)
    ensures
        out@ == spec_encode_trade(*r),
{
    proof {
        reveal_strlit("{\"id\":\"");
        reveal_strlit("\",\"order_id\":\"");
        reveal_strlit("\",\"market_id\":\"");
        reveal_strlit("\",\"side\":\"");
        reveal_strlit("\",\"price\":");
        reveal_strlit(",\"size\":");
        reveal_strlit(",\"lmsr_fair_value\":");
        reveal_strlit(",\"edge\":");
        reveal_strlit(",\"kelly_fraction\":");
        reveal_strlit(",\"fees\":");
        reveal_strlit(",\"timestamp_ms\":");
        reveal_strlit("}");
    }
    let mut out: String = String::new();
    out.append("{\"id\":\"");
    out.append(r.id.as_str());
    out.append("\",\"order_id\":\"");
    out.append(r.order_id.as_str());
    out.append("\",\"market_id\":\"");
    out.append(r.market_id.as_str());
    out.append("\",\"side\":\"");
    out.append(r.side.as_str());
    out.append("\",\"price\":");
    append_u64(&mut out, r.price);
    out.append(",\"size\":");
    append_u64(&mut out, r.size);
    out.append(",\"lmsr_fair_value\":");
    append_u64(&mut out, r.lmsr_fair_value);
    out.append(",\"edge\":");
    append_i64(&mut out, r.edge);
    out.append(",\"kelly_fraction\":");
    append_u64(&mut out, r.kelly_fraction);
    out.append(",\"fees\":");
    append_u64(&mut out, r.fees);
    out.append(",\"timestamp_ms\":");
    append_u64(&mut out, r.timestamp_ms);
    out.append("}");
    proof {
        reveal(spec_encode_trade);
        assert(out@ =~= spec_encode_trade(*r));
    }
    out
}

/// Advance past `lit` exactly when the text at `i` starts with it.
fn expect_lit(s: &str, i: usize, lit: &str) -> (r: Option<usize>)
    requires
        i <= s@.len(),
    ensures
        r matches Some(j) ==> i <= j <= s@.len() && j == i + lit@.len(),
        (i + lit@.len() <= s@.len() && s@.subrange(i as int, i + lit@.len()) == lit@)
            ==> (r is Some),
{
    let s_len: usize = s.unicode_len();
    let l: usize = lit.unicode_len();
    if l > s_len - i {
        return None;
    }
    let mut k: usize = 0;
    while k < l
        invariant
            0 <= k <= l,
            i + l <= s_len,
            s_len == s@.len(),
            l == lit@.len(),
        decreases l - k,
    {
        if s.get_char(i + k) != lit.get_char(k) {
            proof {
                if s@.subrange(i as int, i + l) == lit@ {
                    assert(s@.subrange(i as int, i + l)[k as int] == s@[i + k]);
                    assert(false);
                }
            }
            return None;
        }
        k = k + 1;
    }
    Some(i + l)
}

/// The index of the next quote character at or after `i`, if any.
fn scan_quote(s: &str, i: usize) -> (r: Option<usize>)
    requires
        i <= s@.len(),
    ensures
        r matches Some(j) ==> i <= j < s@.len() && s@[j as int] == '"',
        spec_quote_index(s@, i as int) < s@.len() ==> (r matches Some(j) && j
            == spec_quote_index(s@, i as int)),
        spec_quote_index(s@, i as int) >= s@.len() ==> r is None,
{
    let s_len: usize = s.unicode_len();
    let mut k: usize = i;
    while k < s_len
        invariant
            i <= k <= s_len == s@.len(),
            spec_quote_index(s@, i as int) == spec_quote_index(s@, k as int),
        decreases s_len - k,
    {
        if s.get_char(k) == '"' {
            return Some(k);
        }
        k = k + 1;
    }
    None
}

/// Read a quoted string's content: the text from `i` up to the next
/// quote, and the index just past that quote.
fn read_string_field(s: &str, i: usize) -> (r: Option<(String, usize)>)
    requires
        i <= s@.len(),
    ensures
        r matches Some(p) ==> i <= p.1 <= s@.len(),
        spec_quote_index(s@, i as int) < s@.len() ==> (r matches Some(p) && p.0@
            == s@.subrange(i as int, spec_quote_index(s@, i as int)) && p.1
            == spec_quote_index(s@, i as int) + 1),
        spec_quote_index(s@, i as int) >= s@.len() ==> r is None,
{
    let s_len: usize = s.unicode_len();
    let j: usize = match scan_quote(s, i) {
        Some(j) => j,
        None => { return None; },
    };
    proof {
        assert(j < s_len);
    }
    let content_slice: &str = s.substring_char(i, j);
    let content: String = String::from_str(content_slice);
    Some((content, j + 1))
}

/// Read a decimal number: the value and end of the maximal digit run
/// at `i`, or `None` when no digit stands there or the value overflows
/// 64 bits.
fn read_u64_field(s: &str, i: usize) -> (r: Option<(u64, usize)>)
    requires
        i <= s@.len(),
    ensures
        r matches Some(p) ==> i <= p.1 <= s@.len(),
        ({
            let e = spec_digit_run_end(s@, i as int);
            let v = spec_digits_value(s@.subrange(i as int, e));
            &&& ((e > i && v <= u64::MAX) ==> (r matches Some(p) && p.0 == v && p.1 == e))
            &&& ((e == i || v > u64::MAX) ==> r is None)
        }),
{
    let s_len: usize = s.unicode_len();
    let mut k: usize = i;
    let mut acc: u64 = 0;
    let mut any: bool = false;
    proof {
        assert(s@.subrange(i as int, i as int) =~= Seq::<char>::empty());
    }
    while k < s_len
        invariant
            i <= k <= s_len == s@.len(),
            spec_digit_run_end(s@, i as int) == spec_digit_run_end(s@, k as int),
            forall|m: int| i <= m < k ==> (#[trigger] spec_digit_value(s@[m])) is Some,
            acc == spec_digits_value(s@.subrange(i as int, k as int)),
            any <==> k > i,
        decreases s_len - k,
    {
        let ghost prefix = s@.subrange(i as int, k as int);
        let c: char = s.get_char(k);
        let d: u64 = match c {
            '0' => 0,
            '1' => 1,
            '2' => 2,
            '3' => 3,
            '4' => 4,
            '5' => 5,
            '6' => 6,
            '7' => 7,
            '8' => 8,
            '9' => 9,
            _ => {
                proof {
                    assert(spec_digit_value(s@[k as int]) is None);
                    assert(spec_digit_run_end(s@, k as int) == k);
                }
                if any {
                    return Some((acc, k));
                } else {
                    return None;
                }
            },
        };
        proof {
            assert(spec_digit_value(s@[k as int]) == Some(d as int));
            let next = s@.subrange(i as int, k + 1);
            assert(next.drop_last() =~= prefix);
            assert(next.last() == s@[k as int]);
        }
        if acc > (u64::MAX - d) / 10 {
            proof {
                // The value of the whole run dominates this prefix,
                // which already does not fit.
                assert(10 * (acc as int) + d > u64::MAX) by (nonlinear_arith)
                    requires
                        acc > (u64::MAX - d) / 10,
                        0 <= d <= 9,
                ;
                lemma_run_end_bounds(s@, (k + 1) as int);
                let e = spec_digit_run_end(s@, i as int);
                assert(e == spec_digit_run_end(s@, k + 1));
                assert(e >= k + 1);
                let t = s@.subrange(i as int, e);
                assert forall|m: int| 0 <= m < t.len() implies
                    (#[trigger] spec_digit_value(t[m])) is Some by {
                    assert(t[m] == s@[i + m]);
                }
                assert(t.subrange(0, k + 1 - i) =~= s@.subrange(i as int, k + 1));
                lemma_digits_prefix_monotone(t, k + 1 - i);
            }
            return None;
        }
        proof {
            assert(10 * (acc as int) + d <= u64::MAX) by (nonlinear_arith)
                requires
                    acc <= (u64::MAX - d) / 10,
                    0 <= d <= 9,
            ;
        }
        acc = 10 * acc + d;
        any = true;
        k = k + 1;
    }
    proof {
        assert(spec_digit_run_end(s@, i as int) == k);
    }
    if any {
        Some((acc, k))
    } else {
        None
    }
}

/// Read a signed decimal number.
fn read_i64_field(s: &str, i: usize) -> (r: Option<(i64, usize)>)
    requires
        i <= s@.len(),
    ensures
        r matches Some(p) ==> i <= p.1 <= s@.len(),
        ({
            let e = spec_digit_run_end(s@, i as int);
            let v = spec_digits_value(s@.subrange(i as int, e));
            (i < s@.len() && s@[i as int] != '-' && e > i && v <= i64::MAX)
                ==> (r matches Some(p) && p.0 == v && p.1 == e)
        }),
        ({
            let e = spec_digit_run_end(s@, i + 1);
            let v = spec_digits_value(s@.subrange(i + 1, e));
            (i < s@.len() && s@[i as int] == '-' && e > i + 1
                && v <= 0x8000_0000_0000_0000)
                ==> (r matches Some(p) && p.0 == -v && p.1 == e)
        }),
{
    let s_len: usize = s.unicode_len();
    if i < s_len && s.get_char(i) == '-' {
        match read_u64_field(s, i + 1) {
            Some((magnitude, j)) => {
                if magnitude > 0x8000_0000_0000_0000 {
                    None
                } else {
                    Some(((-(magnitude as i128)) as i64, j))
                }
            },
            None => None,
        }
    } else {
        match read_u64_field(s, i) {
            Some((value, j)) => {
                if value > i64::MAX as u64 {
                    None
                } else {
                    Some((value as i64, j))
                }
            },
            None => None,
        }
    }
}


/// Offset of the id value inside a canonical trade line.
spec fn toff_id(r: TradeRecord) -> int {
    "{\"id\":\""@.len() as int
}

spec fn toff_oid(r: TradeRecord) -> int {
    toff_id(r) + r.id@.len() + "\",\"order_id\":\""@.len()
}

spec fn toff_mid(r: TradeRecord) -> int {
    toff_oid(r) + r.order_id@.len() + "\",\"market_id\":\""@.len()
}

spec fn toff_side(r: TradeRecord) -> int {
    toff_mid(r) + r.market_id@.len() + "\",\"side\":\""@.len()
}

spec fn toff_price(r: TradeRecord) -> int {
    toff_side(r) + r.side@.len() + "\",\"price\":"@.len()
}

spec fn toff_size(r: TradeRecord) -> int {
    toff_price(r) + spec_u64_chars(r.price as int).len() + ",\"size\":"@.len()
}

spec fn toff_fair(r: TradeRecord) -> int {
    toff_size(r) + spec_u64_chars(r.size as int).len() + ",\"lmsr_fair_value\":"@.len()
}

spec fn toff_edge(r: TradeRecord) -> int {
    toff_fair(r) + spec_u64_chars(r.lmsr_fair_value as int).len() + ",\"edge\":"@.len()
}

spec fn toff_kf(r: TradeRecord) -> int {
    toff_edge(r) + spec_i64_chars(r.edge as int).len() + ",\"kelly_fraction\":"@.len()
}

spec fn toff_fees(r: TradeRecord) -> int {
    toff_kf(r) + spec_u64_chars(r.kelly_fraction as int).len() + ",\"fees\":"@.len()
}

spec fn toff_ts(r: TradeRecord) -> int {
    toff_fees(r) + spec_u64_chars(r.fees as int).len() + ",\"timestamp_ms\":"@.len()
}

/// Total length of a canonical trade line.
#[verifier::spinoff_prover]
#[verifier::rlimit(100)]
proof fn lemma_trade_len(s: Seq<char>, rec: TradeRecord)
    requires
        s == spec_encode_trade(rec),
    ensures
        s.len() == toff_ts(rec) + spec_u64_chars(r_ts(rec)).len() + "}"@.len(),
{
    reveal(spec_encode_trade);
}

/// Placement of part 1 of a canonical trade line.
#[verifier::spinoff_prover]
#[verifier::rlimit(100)]
proof fn lemma_trade_layout_part1(s: Seq<char>, rec: TradeRecord)
    requires
        s == spec_encode_trade(rec),
    ensures
        s.subrange(0, toff_id(rec)) == "{\"id\":\""@,
        s.subrange(toff_id(rec), toff_id(rec) + rec.id@.len()) == rec.id@,
        s.subrange(toff_id(rec) + rec.id@.len(), toff_oid(rec)) == "\",\"order_id\":\""@,
        s.subrange(toff_oid(rec), toff_oid(rec) + rec.order_id@.len()) == rec.order_id@,
{
    reveal(spec_encode_trade);
    assert(s.subrange(0, toff_id(rec)) =~= "{\"id\":\""@);
    assert(s.subrange(toff_id(rec), toff_id(rec) + rec.id@.len()) =~= rec.id@);
    assert(s.subrange(toff_id(rec) + rec.id@.len(), toff_oid(rec))
        =~= "\",\"order_id\":\""@);
    assert(s.subrange(toff_oid(rec), toff_oid(rec) + rec.order_id@.len()) =~= rec.order_id@);
}

/// Placement of part 2 of a canonical trade line.
#[verifier::spinoff_prover]
#[verifier::rlimit(100)]
proof fn lemma_trade_layout_part2(s: Seq<char>, rec: TradeRecord)
    requires
        s == spec_encode_trade(rec),
    ensures
        s.subrange(toff_oid(rec) + rec.order_id@.len(), toff_mid(rec))
            == "\",\"market_id\":\""@,
        s.subrange(toff_mid(rec), toff_mid(rec) + rec.market_id@.len()) == rec.market_id@,
        s.subrange(toff_mid(rec) + rec.market_id@.len(), toff_side(rec)) == "\",\"side\":\""@,
        s.subrange(toff_side(rec), toff_side(rec) + rec.side@.len()) == rec.side@,
{
    reveal(spec_encode_trade);
    assert(s.subrange(toff_oid(rec) + rec.order_id@.len(), toff_mid(rec))
        =~= "\",\"market_id\":\""@);
    assert(s.subrange(toff_mid(rec), toff_mid(rec) + rec.market_id@.len()) =~= rec.market_id@);
    assert(s.subrange(toff_mid(rec) + rec.market_id@.len(), toff_side(rec))
        =~= "\",\"side\":\""@);
    assert(s.subrange(toff_side(rec), toff_side(rec) + rec.side@.len()) =~= rec.side@);
}

/// Placement of part 3 of a canonical trade line.
#[verifier::spinoff_prover]
#[verifier::rlimit(100)]
proof fn lemma_trade_layout_part3(s: Seq<char>, rec: TradeRecord)
    requires
        s == spec_encode_trade(rec),
    ensures
        s.subrange(toff_side(rec) + rec.side@.len(), toff_price(rec)) == "\",\"price\":"@,
        s.subrange(toff_price(rec), toff_price(rec) + spec_u64_chars(r_price(rec)).len())
            == spec_u64_chars(r_price(rec)),
        s.subrange(toff_price(rec) + spec_u64_chars(r_price(rec)).len(), toff_size(rec))
            == ",\"size\":"@,
        s.subrange(toff_size(rec), toff_size(rec) + spec_u64_chars(r_size(rec)).len())
            == spec_u64_chars(r_size(rec)),
{
    reveal(spec_encode_trade);
    assert(s.subrange(toff_side(rec) + rec.side@.len(), toff_price(rec))
        =~= "\",\"price\":"@);
    assert(s.subrange(toff_price(rec), toff_price(rec) + spec_u64_chars(r_price(rec)).len())
        =~= spec_u64_chars(r_price(rec)));
    assert(s.subrange(toff_price(rec) + spec_u64_chars(r_price(rec)).len(), toff_size(rec))
        =~= ",\"size\":"@);
    assert(s.subrange(toff_size(rec), toff_size(rec) + spec_u64_chars(r_size(rec)).len())
        =~= spec_u64_chars(r_size(rec)));
}

/// Placement of part 4 of a canonical trade line.
#[verifier::spinoff_prover]
#[verifier::rlimit(100)]
proof fn lemma_trade_layout_part4(s: Seq<char>, rec: TradeRecord)
    requires
        s == spec_encode_trade(rec),
    ensures
        s.subrange(toff_size(rec) + spec_u64_chars(r_size(rec)).len(), toff_fair(rec))
            == ",\"lmsr_fair_value\":"@,
        s.subrange(toff_fair(rec), toff_fair(rec) + spec_u64_chars(r_fair(rec)).len())
            == spec_u64_chars(r_fair(rec)),
        s.subrange(toff_fair(rec) + spec_u64_chars(r_fair(rec)).len(), toff_edge(rec))
            == ",\"edge\":"@,
        s.subrange(toff_edge(rec), toff_edge(rec) + spec_i64_chars(rec.edge as int).len())
            == spec_i64_chars(rec.edge as int),
{
    reveal(spec_encode_trade);
    assert(s.subrange(toff_size(rec) + spec_u64_chars(r_size(rec)).len(), toff_fair(rec))
        =~= ",\"lmsr_fair_value\":"@);
    assert(s.subrange(toff_fair(rec), toff_fair(rec) + spec_u64_chars(r_fair(rec)).len())
        =~= spec_u64_chars(r_fair(rec)));
    assert(s.subrange(toff_fair(rec) + spec_u64_chars(r_fair(rec)).len(), toff_edge(rec))
        =~= ",\"edge\":"@);
    assert(s.subrange(toff_edge(rec), toff_edge(rec) + spec_i64_chars(rec.edge as int).len())
        =~= spec_i64_chars(rec.edge as int));
}

/// Placement of part 5 of a canonical trade line.
#[verifier::spinoff_prover]
#[verifier::rlimit(100)]
proof fn lemma_trade_layout_part5(s: Seq<char>, rec: TradeRecord)
    requires
        s == spec_encode_trade(rec),
    ensures
        s.subrange(toff_edge(rec) + spec_i64_chars(rec.edge as int).len(), toff_kf(rec))
            == ",\"kelly_fraction\":"@,
        s.subrange(toff_kf(rec), toff_kf(rec) + spec_u64_chars(r_kf(rec)).len())
            == spec_u64_chars(r_kf(rec)),
        s.subrange(toff_kf(rec) + spec_u64_chars(r_kf(rec)).len(), toff_fees(rec))
            == ",\"fees\":"@,
        s.subrange(toff_fees(rec), toff_fees(rec) + spec_u64_chars(r_fees(rec)).len())
            == spec_u64_chars(r_fees(rec)),
{
    reveal(spec_encode_trade);
    assert(s.subrange(toff_edge(rec) + spec_i64_chars(rec.edge as int).len(), toff_kf(rec))
        =~= ",\"kelly_fraction\":"@);
    assert(s.subrange(toff_kf(rec), toff_kf(rec) + spec_u64_chars(r_kf(rec)).len())
        =~= spec_u64_chars(r_kf(rec)));
    assert(s.subrange(toff_kf(rec) + spec_u64_chars(r_kf(rec)).len(), toff_fees(rec))
        =~= ",\"fees\":"@);
    assert(s.subrange(toff_fees(rec), toff_fees(rec) + spec_u64_chars(r_fees(rec)).len())
        =~= spec_u64_chars(r_fees(rec)));
}

/// Placement of part 6 of a canonical trade line.
#[verifier::spinoff_prover]
#[verifier::rlimit(100)]
proof fn lemma_trade_layout_part6(s: Seq<char>, rec: TradeRecord)
    requires
        s == spec_encode_trade(rec),
    ensures
        s.subrange(toff_fees(rec) + spec_u64_chars(r_fees(rec)).len(), toff_ts(rec))
            == ",\"timestamp_ms\":"@,
        s.subrange(toff_ts(rec), toff_ts(rec) + spec_u64_chars(r_ts(rec)).len())
            == spec_u64_chars(r_ts(rec)),
        s.subrange(toff_ts(rec) + spec_u64_chars(r_ts(rec)).len(), s.len() as int) == "}"@,
{
    reveal(spec_encode_trade);
    assert(s.subrange(toff_fees(rec) + spec_u64_chars(r_fees(rec)).len(), toff_ts(rec))
        =~= ",\"timestamp_ms\":"@);
    assert(s.subrange(toff_ts(rec), toff_ts(rec) + spec_u64_chars(r_ts(rec)).len())
        =~= spec_u64_chars(r_ts(rec)));
    assert(s.subrange(toff_ts(rec) + spec_u64_chars(r_ts(rec)).len(), s.len() as int)
        =~= "}"@);
}

/// Where every piece of a canonical trade line stands.
proof fn lemma_trade_layout(s: Seq<char>, rec: TradeRecord)
    requires
        s == spec_encode_trade(rec),
    ensures
        s.len() == toff_ts(rec) + spec_u64_chars(r_ts(rec)).len() + "}"@.len(),
        s.subrange(0, toff_id(rec)) == "{\"id\":\""@,
        s.subrange(toff_id(rec), toff_id(rec) + rec.id@.len()) == rec.id@,
        s.subrange(toff_id(rec) + rec.id@.len(), toff_oid(rec)) == "\",\"order_id\":\""@,
        s.subrange(toff_oid(rec), toff_oid(rec) + rec.order_id@.len()) == rec.order_id@,
        s.subrange(toff_oid(rec) + rec.order_id@.len(), toff_mid(rec))
            == "\",\"market_id\":\""@,
        s.subrange(toff_mid(rec), toff_mid(rec) + rec.market_id@.len()) == rec.market_id@,
        s.subrange(toff_mid(rec) + rec.market_id@.len(), toff_side(rec)) == "\",\"side\":\""@,
        s.subrange(toff_side(rec), toff_side(rec) + rec.side@.len()) == rec.side@,
        s.subrange(toff_side(rec) + rec.side@.len(), toff_price(rec)) == "\",\"price\":"@,
        s.subrange(toff_price(rec), toff_price(rec) + spec_u64_chars(r_price(rec)).len())
            == spec_u64_chars(r_price(rec)),
        s.subrange(toff_price(rec) + spec_u64_chars(r_price(rec)).len(), toff_size(rec))
            == ",\"size\":"@,
        s.subrange(toff_size(rec), toff_size(rec) + spec_u64_chars(r_size(rec)).len())
            == spec_u64_chars(r_size(rec)),
        s.subrange(toff_size(rec) + spec_u64_chars(r_size(rec)).len(), toff_fair(rec))
            == ",\"lmsr_fair_value\":"@,
        s.subrange(toff_fair(rec), toff_fair(rec) + spec_u64_chars(r_fair(rec)).len())
            == spec_u64_chars(r_fair(rec)),
        s.subrange(toff_fair(rec) + spec_u64_chars(r_fair(rec)).len(), toff_edge(rec))
            == ",\"edge\":"@,
        s.subrange(toff_edge(rec), toff_edge(rec) + spec_i64_chars(rec.edge as int).len())
            == spec_i64_chars(rec.edge as int),
        s.subrange(toff_edge(rec) + spec_i64_chars(rec.edge as int).len(), toff_kf(rec))
            == ",\"kelly_fraction\":"@,
        s.subrange(toff_kf(rec), toff_kf(rec) + spec_u64_chars(r_kf(rec)).len())
            == spec_u64_chars(r_kf(rec)),
        s.subrange(toff_kf(rec) + spec_u64_chars(r_kf(rec)).len(), toff_fees(rec))
            == ",\"fees\":"@,
        s.subrange(toff_fees(rec), toff_fees(rec) + spec_u64_chars(r_fees(rec)).len())
            == spec_u64_chars(r_fees(rec)),
        s.subrange(toff_fees(rec) + spec_u64_chars(r_fees(rec)).len(), toff_ts(rec))
            == ",\"timestamp_ms\":"@,
        s.subrange(toff_ts(rec), toff_ts(rec) + spec_u64_chars(r_ts(rec)).len())
            == spec_u64_chars(r_ts(rec)),
        s.subrange(toff_ts(rec) + spec_u64_chars(r_ts(rec)).len(), s.len() as int) == "}"@,
{
    lemma_trade_len(s, rec);
    lemma_trade_layout_part1(s, rec);
    lemma_trade_layout_part2(s, rec);
    lemma_trade_layout_part3(s, rec);
    lemma_trade_layout_part4(s, rec);
    lemma_trade_layout_part5(s, rec);
    lemma_trade_layout_part6(s, rec);
}

/// The numeric field values as mathematical integers.
spec fn r_price(r: TradeRecord) -> int {
    r.price as int
}

spec fn r_size(r: TradeRecord) -> int {
    r.size as int
}

spec fn r_fair(r: TradeRecord) -> int {
    r.lmsr_fair_value as int
}

spec fn r_kf(r: TradeRecord) -> int {
    r.kelly_fraction as int
}

spec fn r_fees(r: TradeRecord) -> int {
    r.fees as int
}

spec fn r_ts(r: TradeRecord) -> int {
    r.timestamp_ms as int
}

/// Decode one trade-record line.  Accepts exactly the canonical lines
/// the encoder writes: a returned record always re-encodes to the
/// input, and every wire-clean record's canonical line decodes back to
/// that record's values.
pub fn decode_trade_record(s: &str) -> (r: Option<TradeRecord>)
    ensures
        r matches Some(rec) ==> s@ == spec_encode_trade(rec),
        forall|rec: TradeRecord|
            #[trigger] spec_trade_canon(s@, rec) ==> (r matches Some(p)
                && spec_trade_fields_match(p, rec)),
{
    let parsed: TradeRecord = match parse_trade_line(s) {
        Some(rec) => rec,
        None => { return None; },
    };
    let redone: String = encode_trade_record(&parsed);
    if string_eq_str(&redone, s) {
        Some(parsed)
    } else {
        proof {
            assert forall|rec: TradeRecord| #[trigger] spec_trade_canon(s@, rec) implies
                false by {
                reveal(spec_encode_trade);
                assert(spec_trade_fields_match(parsed, rec));
                assert(spec_encode_trade(parsed) == spec_encode_trade(rec));
                assert(redone@ == s@);
            }
        }
        None
    }
}

/// Parse the opening literal and the four string fields of a trade
/// line; on canonical input this succeeds and lands at the price.
#[verifier::spinoff_prover]
#[verifier::rlimit(100)]
fn parse_trade_strings(s: &str) -> (r: Option<(String, String, String, String, usize)>)
    ensures
        r matches Some(t) ==> t.4 <= s@.len(),
        forall|rec: TradeRecord|
            #[trigger] spec_trade_canon(s@, rec) ==> (r matches Some(t)
                && t.0@ == rec.id@ && t.1@ == rec.order_id@ && t.2@ == rec.market_id@
                && t.3@ == rec.side@ && t.4 == toff_price(rec)),
{
    let st1 = expect_lit(s, 0, "{\"id\":\"");
    proof {
        assert forall|rec: TradeRecord| #[trigger] spec_trade_canon(s@, rec) implies (
            st1 matches Some(j) && j == toff_id(rec)
        ) by {
            lemma_trade_len(s@, rec);
            lemma_trade_layout_part1(s@, rec);
            reveal_strlit("{\"id\":\"");
        }
    }
    let i1 = match st1 {
        Some(v) => v,
        None => { return None; },
    };
    let st2 = read_string_field(s, i1);
    proof {
        assert forall|rec: TradeRecord| #[trigger] spec_trade_canon(s@, rec) implies (
            st2 matches Some(p) && p.0@ == rec.id@
                && p.1 == toff_id(rec) + rec.id@.len() + 1
        ) by {
            lemma_trade_len(s@, rec);
            lemma_trade_layout_part1(s@, rec);
            reveal_strlit("\",\"order_id\":\"");
            let a = toff_id(rec);
            let n = rec.id@.len() as int;
            assert forall|m: int| a <= m < a + n implies s@[m] != '"' by {
                assert(s@.subrange(a, a + n)[m - a] == s@[m]);
            }
            assert(s@.subrange(a + n, toff_oid(rec))[0] == s@[a + n]);
            assert(s@[a + n] == '"');
            lemma_quote_index_at(s@, a, a + n);
        }
    }
    let (id_s, i2) = match st2 {
        Some(p) => p,
        None => { return None; },
    };
    let st3 = expect_lit(s, i2, ",\"order_id\":\"");
    proof {
        assert forall|rec: TradeRecord| #[trigger] spec_trade_canon(s@, rec) implies (
            st3 matches Some(j) && j == toff_oid(rec)
        ) by {
            lemma_trade_len(s@, rec);
            lemma_trade_layout_part1(s@, rec);
            reveal_strlit("\",\"order_id\":\"");
            reveal_strlit(",\"order_id\":\"");
            let segstart = toff_id(rec) + rec.id@.len();
            assert(s@.subrange(i2 as int, toff_oid(rec)) =~= ",\"order_id\":\""@) by {
                assert forall|m: int| 0 <= m < ",\"order_id\":\""@.len() implies
                    s@.subrange(i2 as int, toff_oid(rec))[m] == ",\"order_id\":\""@[m] by {
                    assert(s@.subrange(segstart, toff_oid(rec))[m + 1] == s@[segstart + 1 + m]);
                }
            }
        }
    }
    let i3 = match st3 {
        Some(v) => v,
        None => { return None; },
    };
    let st4 = read_string_field(s, i3);
    proof {
        assert forall|rec: TradeRecord| #[trigger] spec_trade_canon(s@, rec) implies (
            st4 matches Some(p) && p.0@ == rec.order_id@
                && p.1 == toff_oid(rec) + rec.order_id@.len() + 1
        ) by {
            lemma_trade_len(s@, rec);
            lemma_trade_layout_part1(s@, rec);
            lemma_trade_layout_part2(s@, rec);
            reveal_strlit("\",\"market_id\":\"");
            let a = toff_oid(rec);
            let n = rec.order_id@.len() as int;
            assert forall|m: int| a <= m < a + n implies s@[m] != '"' by {
                assert(s@.subrange(a, a + n)[m - a] == s@[m]);
            }
            assert(s@.subrange(a + n, toff_mid(rec))[0] == s@[a + n]);
            assert(s@[a + n] == '"');
            lemma_quote_index_at(s@, a, a + n);
        }
    }
    let (order_id_s, i4) = match st4 {
        Some(p) => p,
        None => { return None; },
    };
    let st5 = expect_lit(s, i4, ",\"market_id\":\"");
    proof {
        assert forall|rec: TradeRecord| #[trigger] spec_trade_canon(s@, rec) implies (
            st5 matches Some(j) && j == toff_mid(rec)
        ) by {
            lemma_trade_len(s@, rec);
            lemma_trade_layout_part2(s@, rec);
            reveal_strlit("\",\"market_id\":\"");
            reveal_strlit(",\"market_id\":\"");
            let segstart = toff_oid(rec) + rec.order_id@.len();
            assert(s@.subrange(i4 as int, toff_mid(rec)) =~= ",\"market_id\":\""@) by {
                assert forall|m: int| 0 <= m < ",\"market_id\":\""@.len() implies
                    s@.subrange(i4 as int, toff_mid(rec))[m] == ",\"market_id\":\""@[m] by {
                    assert(s@.subrange(segstart, toff_mid(rec))[m + 1] == s@[segstart + 1 + m]);
                }
            }
        }
    }
    let i5 = match st5 {
        Some(v) => v,
        None => { return None; },
    };
    let st6 = read_string_field(s, i5);
    proof {
        assert forall|rec: TradeRecord| #[trigger] spec_trade_canon(s@, rec) implies (
            st6 matches Some(p) && p.0@ == rec.market_id@
                && p.1 == toff_mid(rec) + rec.market_id@.len() + 1
        ) by {
            lemma_trade_len(s@, rec);
            lemma_trade_layout_part2(s@, rec);
            reveal_strlit("\",\"side\":\"");
            let a = toff_mid(rec);
            let n = rec.market_id@.len() as int;
            assert forall|m: int| a <= m < a + n implies s@[m] != '"' by {
                assert(s@.subrange(a, a + n)[m - a] == s@[m]);
            }
            assert(s@.subrange(a + n, toff_side(rec))[0] == s@[a + n]);
            assert(s@[a + n] == '"');
            lemma_quote_index_at(s@, a, a + n);
        }
    }
    let (market_id_s, i6) = match st6 {
        Some(p) => p,
        None => { return None; },
    };
    let st7 = expect_lit(s, i6, ",\"side\":\"");
    proof {
        assert forall|rec: TradeRecord| #[trigger] spec_trade_canon(s@, rec) implies (
            st7 matches Some(j) && j == toff_side(rec)
        ) by {
            lemma_trade_len(s@, rec);
            lemma_trade_layout_part2(s@, rec);
            reveal_strlit("\",\"side\":\"");
            reveal_strlit(",\"side\":\"");
            let segstart = toff_mid(rec) + rec.market_id@.len();
            assert(s@.subrange(i6 as int, toff_side(rec)) =~= ",\"side\":\""@) by {
                assert forall|m: int| 0 <= m < ",\"side\":\""@.len() implies
                    s@.subrange(i6 as int, toff_side(rec))[m] == ",\"side\":\""@[m] by {
                    assert(s@.subrange(segstart, toff_side(rec))[m + 1] == s@[segstart + 1 + m]);
                }
            }
        }
    }
    let i7 = match st7 {
        Some(v) => v,
        None => { return None; },
    };
    let st8 = read_string_field(s, i7);
    proof {
        assert forall|rec: TradeRecord| #[trigger] spec_trade_canon(s@, rec) implies (
            st8 matches Some(p) && p.0@ == rec.side@
                && p.1 == toff_side(rec) + rec.side@.len() + 1
        ) by {
            lemma_trade_len(s@, rec);
            lemma_trade_layout_part2(s@, rec);
            lemma_trade_layout_part3(s@, rec);
            reveal_strlit("\",\"price\":");
            let a = toff_side(rec);
            let n = rec.side@.len() as int;
            assert forall|m: int| a <= m < a + n implies s@[m] != '"' by {
                assert(s@.subrange(a, a + n)[m - a] == s@[m]);
            }
            assert(s@.subrange(a + n, toff_price(rec))[0] == s@[a + n]);
            assert(s@[a + n] == '"');
            lemma_quote_index_at(s@, a, a + n);
        }
    }
    let (side_s, i8) = match st8 {
        Some(p) => p,
        None => { return None; },
    };
    let st9 = expect_lit(s, i8, ",\"price\":");
    proof {
        assert forall|rec: TradeRecord| #[trigger] spec_trade_canon(s@, rec) implies (
            st9 matches Some(j) && j == toff_price(rec)
        ) by {
            lemma_trade_len(s@, rec);
            lemma_trade_layout_part3(s@, rec);
            reveal_strlit("\",\"price\":");
            reveal_strlit(",\"price\":");
            let segstart = toff_side(rec) + rec.side@.len();
            assert(s@.subrange(i8 as int, toff_price(rec)) =~= ",\"price\":"@) by {
                assert forall|m: int| 0 <= m < ",\"price\":"@.len() implies
                    s@.subrange(i8 as int, toff_price(rec))[m] == ",\"price\":"@[m] by {
                    assert(s@.subrange(segstart, toff_price(rec))[m + 1] == s@[segstart + 1 + m]);
                }
            }
        }
    }
    let i9 = match st9 {
        Some(v) => v,
        None => { return None; },
    };
    Some((id_s, order_id_s, market_id_s, side_s, i9))
}

/// Parse the unsigned prices and the signed edge of a trade line from
/// the price offset on; complete on canonical input.
#[verifier::spinoff_prover]
#[verifier::rlimit(100)]
fn parse_trade_numbers(s: &str, i9: usize) -> (r: Option<(u64, u64, u64, i64, usize)>)
    requires
        i9 <= s@.len(),
        forall|rec: TradeRecord|
            #[trigger] spec_trade_canon(s@, rec) ==> i9 == toff_price(rec),
    ensures
        r matches Some(t) ==> t.4 <= s@.len(),
        forall|rec: TradeRecord|
            #[trigger] spec_trade_canon(s@, rec) ==> (r matches Some(t)
                && t.0 == rec.price && t.1 == rec.size && t.2 == rec.lmsr_fair_value
                && t.3 == rec.edge && t.4 == toff_kf(rec)),
{
    let st10 = read_u64_field(s, i9);
    proof {
        assert forall|rec: TradeRecord| #[trigger] spec_trade_canon(s@, rec) implies (
            st10 matches Some(p) && p.0 == r_price(rec)
                && p.1 == toff_price(rec) + spec_u64_chars(r_price(rec)).len()
        ) by {
            lemma_trade_len(s@, rec);
            lemma_trade_layout_part3(s@, rec);
            lemma_u64_chars_decode(r_price(rec));
            reveal_strlit(",\"size\":");
            let a = toff_price(rec);
            let ch = spec_u64_chars(r_price(rec));
            let n = ch.len() as int;
            assert forall|m: int| a <= m < a + n implies
                (#[trigger] spec_digit_value(s@[m])) is Some by {
                assert(s@.subrange(a, a + n)[m - a] == s@[m]);
                assert(ch[m - a] == s@[m]);
            }
            assert(s@.subrange(a + n, a + n + ",\"size\":"@.len())[0] == s@[a + n]);
            assert(spec_digit_value(s@[a + n]) is None);
            lemma_digit_run_at(s@, a, a + n);
        }
    }
    let (price_v, i10) = match st10 {
        Some(p) => p,
        None => { return None; },
    };
    let st11 = expect_lit(s, i10, ",\"size\":");
    proof {
        assert forall|rec: TradeRecord| #[trigger] spec_trade_canon(s@, rec) implies (
            st11 matches Some(j) && j == toff_size(rec)
        ) by {
            lemma_trade_len(s@, rec);
            lemma_trade_layout_part3(s@, rec);
            reveal_strlit(",\"size\":");
        }
    }
    let i11 = match st11 {
        Some(v) => v,
        None => { return None; },
    };
    let st12 = read_u64_field(s, i11);
    proof {
        assert forall|rec: TradeRecord| #[trigger] spec_trade_canon(s@, rec) implies (
            st12 matches Some(p) && p.0 == r_size(rec)
                && p.1 == toff_size(rec) + spec_u64_chars(r_size(rec)).len()
        ) by {
            lemma_trade_len(s@, rec);
            lemma_trade_layout_part3(s@, rec);
            lemma_trade_layout_part4(s@, rec);
            lemma_u64_chars_decode(r_size(rec));
            reveal_strlit(",\"lmsr_fair_value\":");
            let a = toff_size(rec);
            let ch = spec_u64_chars(r_size(rec));
            let n = ch.len() as int;
            assert forall|m: int| a <= m < a + n implies
                (#[trigger] spec_digit_value(s@[m])) is Some by {
                assert(s@.subrange(a, a + n)[m - a] == s@[m]);
                assert(ch[m - a] == s@[m]);
            }
            assert(s@.subrange(a + n, a + n + ",\"lmsr_fair_value\":"@.len())[0] == s@[a + n]);
            assert(spec_digit_value(s@[a + n]) is None);
            lemma_digit_run_at(s@, a, a + n);
        }
    }
    let (size_v, i12) = match st12 {
        Some(p) => p,
        None => { return None; },
    };
    let st13 = expect_lit(s, i12, ",\"lmsr_fair_value\":");
    proof {
        assert forall|rec: TradeRecord| #[trigger] spec_trade_canon(s@, rec) implies (
            st13 matches Some(j) && j == toff_fair(rec)
        ) by {
            lemma_trade_len(s@, rec);
            lemma_trade_layout_part4(s@, rec);
            reveal_strlit(",\"lmsr_fair_value\":");
        }
    }
    let i13 = match st13 {
        Some(v) => v,
        None => { return None; },
    };
    let st14 = read_u64_field(s, i13);
    proof {
        assert forall|rec: TradeRecord| #[trigger] spec_trade_canon(s@, rec) implies (
            st14 matches Some(p) && p.0 == r_fair(rec)
                && p.1 == toff_fair(rec) + spec_u64_chars(r_fair(rec)).len()
        ) by {
            lemma_trade_len(s@, rec);
            lemma_trade_layout_part4(s@, rec);
            lemma_u64_chars_decode(r_fair(rec));
            reveal_strlit(",\"edge\":");
            let a = toff_fair(rec);
            let ch = spec_u64_chars(r_fair(rec));
            let n = ch.len() as int;
            assert forall|m: int| a <= m < a + n implies
                (#[trigger] spec_digit_value(s@[m])) is Some by {
                assert(s@.subrange(a, a + n)[m - a] == s@[m]);
                assert(ch[m - a] == s@[m]);
            }
            assert(s@.subrange(a + n, a + n + ",\"edge\":"@.len())[0] == s@[a + n]);
            assert(spec_digit_value(s@[a + n]) is None);
            lemma_digit_run_at(s@, a, a + n);
        }
    }
    let (fair_v, i14) = match st14 {
        Some(p) => p,
        None => { return None; },
    };
    let st15 = expect_lit(s, i14, ",\"edge\":");
    proof {
        assert forall|rec: TradeRecord| #[trigger] spec_trade_canon(s@, rec) implies (
            st15 matches Some(j) && j == toff_edge(rec)
        ) by {
            lemma_trade_len(s@, rec);
            lemma_trade_layout_part4(s@, rec);
            reveal_strlit(",\"edge\":");
        }
    }
    let i15 = match st15 {
        Some(v) => v,
        None => { return None; },
    };
    let st16 = read_i64_field(s, i15);
    proof {
        assert forall|rec: TradeRecord| #[trigger] spec_trade_canon(s@, rec) implies (
            st16 matches Some(p) && p.0 == rec.edge
                && p.1 == toff_edge(rec) + spec_i64_chars(rec.edge as int).len()
        ) by {
            lemma_trade_len(s@, rec);
            lemma_trade_layout_part4(s@, rec);
            lemma_trade_layout_part5(s@, rec);
            reveal_strlit(",\"kelly_fraction\":");
            let a = toff_edge(rec);
            let ch = spec_i64_chars(rec.edge as int);
            let n = ch.len() as int;
            assert(s@.subrange(a + n, toff_kf(rec))[0] == s@[a + n]);
            assert(s@[a + n] == ',');
            assert(spec_digit_value(s@[a + n]) is None);
            if rec.edge >= 0 {
                lemma_u64_chars_decode(rec.edge as int);
                assert(ch == spec_u64_chars(rec.edge as int));
                assert forall|m: int| a <= m < a + n implies
                    (#[trigger] spec_digit_value(s@[m])) is Some by {
                    assert(s@.subrange(a, a + n)[m - a] == s@[m]);
                    assert(ch[m - a] == s@[m]);
                }
                lemma_digit_run_at(s@, a, a + n);
                assert(s@.subrange(a, a + n) == ch);
                assert(spec_digit_value(s@[a]) is Some);
                assert(s@[a] != '-');
            } else {
                let mag = -(rec.edge as int);
                lemma_u64_chars_decode(mag);
                assert(ch == seq!['-'] + spec_u64_chars(mag));
                assert(s@.subrange(a, a + n)[0] == s@[a]);
                assert(s@[a] == '-');
                assert(s@.subrange(a + 1, a + n) =~= spec_u64_chars(mag)) by {
                    assert forall|m: int| 0 <= m < n - 1 implies
                        s@.subrange(a + 1, a + n)[m] == spec_u64_chars(mag)[m] by {
                        assert(s@.subrange(a, a + n)[m + 1] == s@[a + 1 + m]);
                        assert(ch[m + 1] == spec_u64_chars(mag)[m]);
                    }
                }
                assert forall|m: int| a + 1 <= m < a + n implies
                    (#[trigger] spec_digit_value(s@[m])) is Some by {
                    assert(s@.subrange(a + 1, a + n)[m - a - 1] == s@[m]);
                    assert(spec_u64_chars(mag)[m - a - 1] == s@[m]);
                }
                lemma_digit_run_at(s@, a + 1, a + n);
                assert(spec_digits_value(s@.subrange(a + 1, a + n)) == mag);
                assert(mag <= 0x8000_0000_0000_0000);
            }
        }
    }
    let (edge_v, i16) = match st16 {
        Some(p) => p,
        None => { return None; },
    };
    let st17 = expect_lit(s, i16, ",\"kelly_fraction\":");
    proof {
        assert forall|rec: TradeRecord| #[trigger] spec_trade_canon(s@, rec) implies (
            st17 matches Some(j) && j == toff_kf(rec)
        ) by {
            lemma_trade_len(s@, rec);
            lemma_trade_layout_part5(s@, rec);
            reveal_strlit(",\"kelly_fraction\":");
        }
    }
    let i17 = match st17 {
        Some(v) => v,
        None => { return None; },
    };
    Some((price_v, size_v, fair_v, edge_v, i17))
}

/// Parse the trailing numbers and the closing brace of a trade line
/// from the kelly-fraction offset on; complete on canonical input.
#[verifier::spinoff_prover]
#[verifier::rlimit(100)]
fn parse_trade_tail(s: &str, i17: usize) -> (r: Option<(u64, u64, u64)>)
    requires
        i17 <= s@.len(),
        forall|rec: TradeRecord|
            #[trigger] spec_trade_canon(s@, rec) ==> i17 == toff_kf(rec),
    ensures
        forall|rec: TradeRecord|
            #[trigger] spec_trade_canon(s@, rec) ==> (r matches Some(t)
                && t.0 == rec.kelly_fraction && t.1 == rec.fees && t.2 == rec.timestamp_ms),
{
    let st18 = read_u64_field(s, i17);
    proof {
        assert forall|rec: TradeRecord| #[trigger] spec_trade_canon(s@, rec) implies (
            st18 matches Some(p) && p.0 == r_kf(rec)
                && p.1 == toff_kf(rec) + spec_u64_chars(r_kf(rec)).len()
        ) by {
            lemma_trade_len(s@, rec);
            lemma_trade_layout_part5(s@, rec);
            lemma_u64_chars_decode(r_kf(rec));
            reveal_strlit(",\"fees\":");
            let a = toff_kf(rec);
            let ch = spec_u64_chars(r_kf(rec));
            let n = ch.len() as int;
            assert forall|m: int| a <= m < a + n implies
                (#[trigger] spec_digit_value(s@[m])) is Some by {
                assert(s@.subrange(a, a + n)[m - a] == s@[m]);
                assert(ch[m - a] == s@[m]);
            }
            assert(s@.subrange(a + n, a + n + ",\"fees\":"@.len())[0] == s@[a + n]);
            assert(spec_digit_value(s@[a + n]) is None);
            lemma_digit_run_at(s@, a, a + n);
        }
    }
    let (kf_v, i18) = match st18 {
        Some(p) => p,
        None => { return None; },
    };
    let st19 = expect_lit(s, i18, ",\"fees\":");
    proof {
        assert forall|rec: TradeRecord| #[trigger] spec_trade_canon(s@, rec) implies (
            st19 matches Some(j) && j == toff_fees(rec)
        ) by {
            lemma_trade_len(s@, rec);
            lemma_trade_layout_part5(s@, rec);
            reveal_strlit(",\"fees\":");
        }
    }
    let i19 = match st19 {
        Some(v) => v,
        None => { return None; },
    };
    let st20 = read_u64_field(s, i19);
    proof {
        assert forall|rec: TradeRecord| #[trigger] spec_trade_canon(s@, rec) implies (
            st20 matches Some(p) && p.0 == r_fees(rec)
                && p.1 == toff_fees(rec) + spec_u64_chars(r_fees(rec)).len()
        ) by {
            lemma_trade_len(s@, rec);
            lemma_trade_layout_part5(s@, rec);
            lemma_trade_layout_part6(s@, rec);
            lemma_u64_chars_decode(r_fees(rec));
            reveal_strlit(",\"timestamp_ms\":");
            let a = toff_fees(rec);
            let ch = spec_u64_chars(r_fees(rec));
            let n = ch.len() as int;
            assert forall|m: int| a <= m < a + n implies
                (#[trigger] spec_digit_value(s@[m])) is Some by {
                assert(s@.subrange(a, a + n)[m - a] == s@[m]);
                assert(ch[m - a] == s@[m]);
            }
            assert(s@.subrange(a + n, a + n + ",\"timestamp_ms\":"@.len())[0] == s@[a + n]);
            assert(spec_digit_value(s@[a + n]) is None);
            lemma_digit_run_at(s@, a, a + n);
        }
    }
    let (fees_v, i20) = match st20 {
        Some(p) => p,
        None => { return None; },
    };
    let st21 = expect_lit(s, i20, ",\"timestamp_ms\":");
    proof {
        assert forall|rec: TradeRecord| #[trigger] spec_trade_canon(s@, rec) implies (
            st21 matches Some(j) && j == toff_ts(rec)
        ) by {
            lemma_trade_len(s@, rec);
            lemma_trade_layout_part6(s@, rec);
            reveal_strlit(",\"timestamp_ms\":");
        }
    }
    let i21 = match st21 {
        Some(v) => v,
        None => { return None; },
    };
    let st22 = read_u64_field(s, i21);
    proof {
        assert forall|rec: TradeRecord| #[trigger] spec_trade_canon(s@, rec) implies (
            st22 matches Some(p) && p.0 == r_ts(rec)
                && p.1 == toff_ts(rec) + spec_u64_chars(r_ts(rec)).len()
        ) by {
            lemma_trade_len(s@, rec);
            lemma_trade_layout_part6(s@, rec);
            lemma_u64_chars_decode(r_ts(rec));
            reveal_strlit("}");
            let a = toff_ts(rec);
            let ch = spec_u64_chars(r_ts(rec));
            let n = ch.len() as int;
            assert forall|m: int| a <= m < a + n implies
                (#[trigger] spec_digit_value(s@[m])) is Some by {
                assert(s@.subrange(a, a + n)[m - a] == s@[m]);
                assert(ch[m - a] == s@[m]);
            }
            assert(s@.subrange(a + n, a + n + "}"@.len())[0] == s@[a + n]);
            assert(spec_digit_value(s@[a + n]) is None);
            lemma_digit_run_at(s@, a, a + n);
        }
    }
    let (ts_v, i22) = match st22 {
        Some(p) => p,
        None => { return None; },
    };
    let st23 = expect_lit(s, i22, "}");
    proof {
        assert forall|rec: TradeRecord| #[trigger] spec_trade_canon(s@, rec) implies (
            st23 is Some
        ) by {
            lemma_trade_len(s@, rec);
            lemma_trade_layout_part6(s@, rec);
            reveal_strlit("}");
            assert(s@.subrange(i22 as int, s@.len() as int) == "}"@);
        }
    }
    let _ = match st23 {
        Some(v) => v,
        None => { return None; },
    };
    Some((kf_v, fees_v, ts_v))
}

/// Best-effort parse of a trade-record line, complete on canonical
/// input: for every wire-clean record whose canonical line this is,
/// the parse succeeds and returns that record's values.
fn parse_trade_line(s: &str) -> (r: Option<TradeRecord>)
    ensures
        forall|rec: TradeRecord|
            #[trigger] spec_trade_canon(s@, rec) ==> (r matches Some(p)
                && spec_trade_fields_match(p, rec)),
{
    let (id_s, order_id_s, market_id_s, side_s, i9) = match parse_trade_strings(s) {
        Some(t) => t,
        None => { return None; },
    };
    let (price_v, size_v, fair_v, edge_v, i17) = match parse_trade_numbers(s, i9) {
        Some(t) => t,
        None => { return None; },
    };
    let (kf_v, fees_v, ts_v) = match parse_trade_tail(s, i17) {
        Some(t) => t,
        None => { return None; },
    };
    Some(
        TradeRecord {
            id: id_s,
            order_id: order_id_s,
            market_id: market_id_s,
            side: side_s,
            price: price_v,
            size: size_v,
            lmsr_fair_value: fair_v,
            edge: edge_v,
            kelly_fraction: kf_v,
            fees: fees_v,
            timestamp_ms: ts_v,
        },
    )
}

/// An order that can stand in a snapshot line unescaped: plain
/// strings, and the maker shape the tracker keeps.
pub open spec fn spec_order_wire_ok(o: Order) -> bool {
    &&& spec_text_plain(o.id@)
    &&& spec_text_plain(o.token_id@)
    &&& o.order_type == OrderType::Gtc
    &&& o.post_only
}

/// A snapshot that can stand on the wire unescaped.
pub open spec fn spec_snapshot_wire_ok(s: BotStateSnapshot) -> bool {
    &&& spec_text_plain(s.version@)
    &&& forall|k: int|
        0 <= k < s.open_orders@.len() ==> spec_order_wire_ok(#[trigger] s.open_orders@[k])
    &&& forall|k: int|
        0 <= k < s.positions@.len() ==> spec_text_plain((#[trigger] s.positions@[k]).0@)
}

/// The side label of an order line.
pub open spec fn spec_side_chars(side: TradeSide) -> Seq<char> {
    if side is Buy {
        "BUY"@
    } else {
        "SELL"@
    }
}

/// The canonical header line of a snapshot: version, time, the two
/// array lengths and the risk counters.
#[verifier::opaque]
pub open spec fn spec_header_line(snap: BotStateSnapshot) -> Seq<char> {
    "{\"version\":\""@ + snap.version@
        + "\",\"timestamp_ms\":"@ + spec_u64_chars(snap.timestamp_ms as int)
        + ",\"order_count\":"@ + spec_u64_chars(snap.open_orders@.len() as int)
        + ",\"position_count\":"@ + spec_u64_chars(snap.positions@.len() as int)
        + ",\"cumulative_pnl\":"@ + spec_i64_chars(snap.cumulative_pnl as int)
        + ",\"daily_loss\":"@ + spec_u64_chars(snap.daily_loss as int)
        + "}"@
}

/// The canonical line of one open order.
#[verifier::opaque]
pub open spec fn spec_order_line(o: Order) -> Seq<char> {
    "{\"id\":\""@ + o.id@
        + "\",\"token_id\":\""@ + o.token_id@
        + "\",\"side\":\""@ + spec_side_chars(o.side)
        + "\",\"price\":"@ + spec_u64_chars(o.price as int)
        + ",\"size\":"@ + spec_u64_chars(o.size as int)
        + ",\"timestamp_ms\":"@ + spec_u64_chars(o.timestamp_ms as int)
        + "}"@
}

/// The canonical line of one position.
#[verifier::opaque]
pub open spec fn spec_position_line(p: (String, u64)) -> Seq<char> {
    "{\"token_id\":\""@ + p.0@ + "\",\"size\":"@ + spec_u64_chars(p.1 as int) + "}"@
}

/// The canonical lines of a snapshot: the header, then one line per
/// open order, then one line per position.
pub open spec fn spec_snapshot_lines(snap: BotStateSnapshot) -> Seq<Seq<char>> {
    Seq::new(
        1 + snap.open_orders@.len() + snap.positions@.len(),
        |i: int|
            if i == 0 {
                spec_header_line(snap)
            } else if i <= snap.open_orders@.len() {
                spec_order_line(snap.open_orders@[i - 1])
            } else {
                spec_position_line(snap.positions@[i - 1 - snap.open_orders@.len()])
            },
    )
}

/// `lines` is the canonical form of the wire-clean snapshot `snap`.
pub open spec fn spec_snap_canon(lines: Seq<String>, snap: BotStateSnapshot) -> bool {
    &&& spec_snapshot_wire_ok(snap)
    &&& lines.len() == spec_snapshot_lines(snap).len()
    &&& forall|i: int|
        0 <= i < lines.len() ==> (#[trigger] lines[i])@ == spec_snapshot_lines(snap)[i]
}

/// Two orders carry the same tracked values.
pub open spec fn spec_order_fields_match(p: Order, o: Order) -> bool {
    &&& p.id@ == o.id@
    &&& p.token_id@ == o.token_id@
    &&& p.side == o.side
    &&& p.price == o.price
    &&& p.size == o.size
    &&& p.timestamp_ms == o.timestamp_ms
    &&& p.order_type == OrderType::Gtc
    &&& p.post_only
}

/// Two snapshots carry the same state, compared on string views.
pub open spec fn spec_snapshot_fields_match(p: BotStateSnapshot, snap: BotStateSnapshot) -> bool {
    &&& p.version@ == snap.version@
    &&& p.timestamp_ms == snap.timestamp_ms
    &&& p.open_orders@.len() == snap.open_orders@.len()
    &&& forall|k: int|
        0 <= k < p.open_orders@.len() ==> spec_order_fields_match(
            #[trigger] p.open_orders@[k],
            snap.open_orders@[k],
        )
    &&& p.positions@.len() == snap.positions@.len()
    &&& forall|k: int|
        0 <= k < p.positions@.len() ==> (#[trigger] p.positions@[k]).0@
            == snap.positions@[k].0@ && p.positions@[k].1 == snap.positions@[k].1
    &&& p.cumulative_pnl == snap.cumulative_pnl
    &&& p.daily_loss == snap.daily_loss
}

/// Encode the snapshot header line.
fn encode_header_line(snap: &BotStateSnapshot) -> (out: String)
    ensures
        out@ == spec_header_line(*snap),
{
    proof {
        reveal(spec_header_line);
        reveal_strlit("{\"version\":\"");
        reveal_strlit("\",\"timestamp_ms\":");
        reveal_strlit(",\"order_count\":");
        reveal_strlit(",\"position_count\":");
        reveal_strlit(",\"cumulative_pnl\":");
        reveal_strlit(",\"daily_loss\":");
        reveal_strlit("}");
    }
    let mut out: String = String::new();
    out.append("{\"version\":\"");
    out.append(snap.version.as_str());
    out.append("\",\"timestamp_ms\":");
    append_u64(&mut out, snap.timestamp_ms);
    out.append(",\"order_count\":");
    append_u64(&mut out, snap.open_orders.len() as u64);
    out.append(",\"position_count\":");
    append_u64(&mut out, snap.positions.len() as u64);
    out.append(",\"cumulative_pnl\":");
    append_i64(&mut out, snap.cumulative_pnl);
    out.append(",\"daily_loss\":");
    append_u64(&mut out, snap.daily_loss);
    out.append("}");
    proof {
        assert(out@ =~= spec_header_line(*snap));
    }
    out
}

/// Encode one open order as its snapshot line.
fn encode_order_line(o: &Order) -> (out: String)
    ensures
        out@ == spec_order_line(*o),
{
    proof {
        reveal(spec_order_line);
        reveal_strlit("{\"id\":\"");
        reveal_strlit("\",\"token_id\":\"");
        reveal_strlit("\",\"side\":\"");
        reveal_strlit("BUY");
        reveal_strlit("SELL");
        reveal_strlit("\",\"price\":");
        reveal_strlit(",\"size\":");
        reveal_strlit(",\"timestamp_ms\":");
        reveal_strlit("}");
    }
    let mut out: String = String::new();
    out.append("{\"id\":\"");
    out.append(o.id.as_str());
    out.append("\",\"token_id\":\"");
    out.append(o.token_id.as_str());
    out.append("\",\"side\":\"");
    match o.side {
        TradeSide::Buy => out.append("BUY"),
        TradeSide::Sell => out.append("SELL"),
    }
    out.append("\",\"price\":");
    append_u64(&mut out, o.price);
    out.append(",\"size\":");
    append_u64(&mut out, o.size);
    out.append(",\"timestamp_ms\":");
    append_u64(&mut out, o.timestamp_ms);
    out.append("}");
    proof {
        assert(out@ =~= spec_order_line(*o));
    }
    out
}

/// Encode one position as its snapshot line.
fn encode_position_line(p: &(String, u64)) -> (out: String)
    ensures
        out@ == spec_position_line(*p),
{
    proof {
        reveal(spec_position_line);
        reveal_strlit("{\"token_id\":\"");
        reveal_strlit("\",\"size\":");
        reveal_strlit("}");
    }
    let mut out: String = String::new();
    out.append("{\"token_id\":\"");
    out.append(p.0.as_str());
    out.append("\",\"size\":");
    append_u64(&mut out, p.1);
    out.append("}");
    proof {
        assert(out@ =~= spec_position_line(*p));
    }
    out
}

/// Encode a snapshot as its canonical lines: a header, one line per
/// open order, one per position.  The boundary writes them to the
/// snapshot file in order.
pub fn encode_snapshot(snap: &BotStateSnapshot) -> (out: Vec<String>)
    ensures
        out@.len() == spec_snapshot_lines(*snap).len(),
        forall|i: int|
            0 <= i < out@.len() ==> (#[trigger] out@[i])@ == spec_snapshot_lines(*snap)[i],
{
    let mut out: Vec<String> = Vec::new();
    out.push(encode_header_line(snap));
    let mut k: usize = 0;
    while k < snap.open_orders.len()
        invariant
            0 <= k <= snap.open_orders@.len(),
            out@.len() == 1 + k,
            out@[0]@ == spec_header_line(*snap),
            forall|i: int|
                1 <= i < out@.len() ==> (#[trigger] out@[i])@ == spec_order_line(
                    snap.open_orders@[i - 1],
                ),
        decreases snap.open_orders@.len() - k,
    {
        out.push(encode_order_line(&snap.open_orders[k]));
        k = k + 1;
    }
    let ghost n = snap.open_orders@.len() as int;
    let mut j: usize = 0;
    while j < snap.positions.len()
        invariant
            0 <= j <= snap.positions@.len(),
            n == snap.open_orders@.len(),
            out@.len() == 1 + n + j,
            out@[0]@ == spec_header_line(*snap),
            forall|i: int|
                1 <= i < 1 + n ==> (#[trigger] out@[i])@ == spec_order_line(
                    snap.open_orders@[i - 1],
                ),
            forall|i: int|
                1 + n <= i < out@.len() ==> (#[trigger] out@[i])@ == spec_position_line(
                    snap.positions@[i - 1 - n],
                ),
        decreases snap.positions@.len() - j,
    {
        out.push(encode_position_line(&snap.positions[j]));
        j = j + 1;
    }
    out
}


spec fn hoff_ver(snap: BotStateSnapshot) -> int {
    "{\"version\":\""@.len() as int
}

spec fn hoff_ts(snap: BotStateSnapshot) -> int {
    hoff_ver(snap) + snap.version@.len() + "\",\"timestamp_ms\":"@.len()
}

spec fn hoff_oc(snap: BotStateSnapshot) -> int {
    hoff_ts(snap) + spec_u64_chars(snap.timestamp_ms as int).len() + ",\"order_count\":"@.len()
}

spec fn hoff_pc(snap: BotStateSnapshot) -> int {
    hoff_oc(snap) + spec_u64_chars(snap.open_orders@.len() as int).len()
        + ",\"position_count\":"@.len()
}

spec fn hoff_cp(snap: BotStateSnapshot) -> int {
    hoff_pc(snap) + spec_u64_chars(snap.positions@.len() as int).len()
        + ",\"cumulative_pnl\":"@.len()
}

spec fn hoff_dl(snap: BotStateSnapshot) -> int {
    hoff_cp(snap) + spec_i64_chars(snap.cumulative_pnl as int).len()
        + ",\"daily_loss\":"@.len()
}

/// Where every piece of a canonical header line stands.
#[verifier::spinoff_prover]
#[verifier::rlimit(100)]
proof fn lemma_header_layout(s: Seq<char>, snap: BotStateSnapshot)
    requires
        s == spec_header_line(snap),
    ensures
        s.len() == hoff_dl(snap) + spec_u64_chars(snap.daily_loss as int).len() + "}"@.len(),
        s.subrange(0, hoff_ver(snap)) == "{\"version\":\""@,
        s.subrange(hoff_ver(snap), hoff_ver(snap) + snap.version@.len()) == snap.version@,
        s.subrange(hoff_ver(snap) + snap.version@.len(), hoff_ts(snap))
            == "\",\"timestamp_ms\":"@,
        s.subrange(hoff_ts(snap), hoff_ts(snap) + spec_u64_chars(snap.timestamp_ms as int).len())
            == spec_u64_chars(snap.timestamp_ms as int),
        s.subrange(
            hoff_ts(snap) + spec_u64_chars(snap.timestamp_ms as int).len(),
            hoff_oc(snap),
        ) == ",\"order_count\":"@,
        s.subrange(
            hoff_oc(snap),
            hoff_oc(snap) + spec_u64_chars(snap.open_orders@.len() as int).len(),
        ) == spec_u64_chars(snap.open_orders@.len() as int),
        s.subrange(
            hoff_oc(snap) + spec_u64_chars(snap.open_orders@.len() as int).len(),
            hoff_pc(snap),
        ) == ",\"position_count\":"@,
        s.subrange(
            hoff_pc(snap),
            hoff_pc(snap) + spec_u64_chars(snap.positions@.len() as int).len(),
        ) == spec_u64_chars(snap.positions@.len() as int),
        s.subrange(
            hoff_pc(snap) + spec_u64_chars(snap.positions@.len() as int).len(),
            hoff_cp(snap),
        ) == ",\"cumulative_pnl\":"@,
        s.subrange(
            hoff_cp(snap),
            hoff_cp(snap) + spec_i64_chars(snap.cumulative_pnl as int).len(),
        ) == spec_i64_chars(snap.cumulative_pnl as int),
        s.subrange(
            hoff_cp(snap) + spec_i64_chars(snap.cumulative_pnl as int).len(),
            hoff_dl(snap),
        ) == ",\"daily_loss\":"@,
        s.subrange(hoff_dl(snap), hoff_dl(snap) + spec_u64_chars(snap.daily_loss as int).len())
            == spec_u64_chars(snap.daily_loss as int),
        s.subrange(hoff_dl(snap) + spec_u64_chars(snap.daily_loss as int).len(), s.len() as int)
            == "}"@,
{
    reveal(spec_header_line);
    assert(s.subrange(0, hoff_ver(snap)) =~= "{\"version\":\""@);
    assert(s.subrange(hoff_ver(snap), hoff_ver(snap) + snap.version@.len()) =~= snap.version@);
    assert(s.subrange(hoff_ver(snap) + snap.version@.len(), hoff_ts(snap))
        =~= "\",\"timestamp_ms\":"@);
    assert(s.subrange(hoff_ts(snap), hoff_ts(snap) + spec_u64_chars(
        snap.timestamp_ms as int,
    ).len()) =~= spec_u64_chars(snap.timestamp_ms as int));
    assert(s.subrange(
        hoff_ts(snap) + spec_u64_chars(snap.timestamp_ms as int).len(),
        hoff_oc(snap),
    ) =~= ",\"order_count\":"@);
    assert(s.subrange(
        hoff_oc(snap),
        hoff_oc(snap) + spec_u64_chars(snap.open_orders@.len() as int).len(),
    ) =~= spec_u64_chars(snap.open_orders@.len() as int));
    assert(s.subrange(
        hoff_oc(snap) + spec_u64_chars(snap.open_orders@.len() as int).len(),
        hoff_pc(snap),
    ) =~= ",\"position_count\":"@);
    assert(s.subrange(
        hoff_pc(snap),
        hoff_pc(snap) + spec_u64_chars(snap.positions@.len() as int).len(),
    ) =~= spec_u64_chars(snap.positions@.len() as int));
    assert(s.subrange(
        hoff_pc(snap) + spec_u64_chars(snap.positions@.len() as int).len(),
        hoff_cp(snap),
    ) =~= ",\"cumulative_pnl\":"@);
    assert(s.subrange(
        hoff_cp(snap),
        hoff_cp(snap) + spec_i64_chars(snap.cumulative_pnl as int).len(),
    ) =~= spec_i64_chars(snap.cumulative_pnl as int));
    assert(s.subrange(
        hoff_cp(snap) + spec_i64_chars(snap.cumulative_pnl as int).len(),
        hoff_dl(snap),
    ) =~= ",\"daily_loss\":"@);
    assert(s.subrange(hoff_dl(snap), hoff_dl(snap) + spec_u64_chars(
        snap.daily_loss as int,
    ).len()) =~= spec_u64_chars(snap.daily_loss as int));
    assert(s.subrange(hoff_dl(snap) + spec_u64_chars(snap.daily_loss as int).len(),
        s.len() as int) =~= "}"@);
}

spec fn ooff_id(o: Order) -> int {
    "{\"id\":\""@.len() as int
}

spec fn ooff_tok(o: Order) -> int {
    ooff_id(o) + o.id@.len() + "\",\"token_id\":\""@.len()
}

spec fn ooff_side(o: Order) -> int {
    ooff_tok(o) + o.token_id@.len() + "\",\"side\":\""@.len()
}

spec fn ooff_price(o: Order) -> int {
    ooff_side(o) + spec_side_chars(o.side).len() + "\",\"price\":"@.len()
}

spec fn ooff_size(o: Order) -> int {
    ooff_price(o) + spec_u64_chars(o.price as int).len() + ",\"size\":"@.len()
}

spec fn ooff_ts(o: Order) -> int {
    ooff_size(o) + spec_u64_chars(o.size as int).len() + ",\"timestamp_ms\":"@.len()
}

/// Where every piece of a canonical order line stands.
#[verifier::spinoff_prover]
#[verifier::rlimit(100)]
proof fn lemma_order_layout(s: Seq<char>, o: Order)
    requires
        s == spec_order_line(o),
    ensures
        s.len() == ooff_ts(o) + spec_u64_chars(o.timestamp_ms as int).len() + "}"@.len(),
        s.subrange(0, ooff_id(o)) == "{\"id\":\""@,
        s.subrange(ooff_id(o), ooff_id(o) + o.id@.len()) == o.id@,
        s.subrange(ooff_id(o) + o.id@.len(), ooff_tok(o)) == "\",\"token_id\":\""@,
        s.subrange(ooff_tok(o), ooff_tok(o) + o.token_id@.len()) == o.token_id@,
        s.subrange(ooff_tok(o) + o.token_id@.len(), ooff_side(o)) == "\",\"side\":\""@,
        s.subrange(ooff_side(o), ooff_side(o) + spec_side_chars(o.side).len())
            == spec_side_chars(o.side),
        s.subrange(ooff_side(o) + spec_side_chars(o.side).len(), ooff_price(o))
            == "\",\"price\":"@,
        s.subrange(ooff_price(o), ooff_price(o) + spec_u64_chars(o.price as int).len())
            == spec_u64_chars(o.price as int),
        s.subrange(ooff_price(o) + spec_u64_chars(o.price as int).len(), ooff_size(o))
            == ",\"size\":"@,
        s.subrange(ooff_size(o), ooff_size(o) + spec_u64_chars(o.size as int).len())
            == spec_u64_chars(o.size as int),
        s.subrange(ooff_size(o) + spec_u64_chars(o.size as int).len(), ooff_ts(o))
            == ",\"timestamp_ms\":"@,
        s.subrange(ooff_ts(o), ooff_ts(o) + spec_u64_chars(o.timestamp_ms as int).len())
            == spec_u64_chars(o.timestamp_ms as int),
        s.subrange(ooff_ts(o) + spec_u64_chars(o.timestamp_ms as int).len(), s.len() as int)
            == "}"@,
{
    reveal(spec_order_line);
    assert(s.subrange(0, ooff_id(o)) =~= "{\"id\":\""@);
    assert(s.subrange(ooff_id(o), ooff_id(o) + o.id@.len()) =~= o.id@);
    assert(s.subrange(ooff_id(o) + o.id@.len(), ooff_tok(o)) =~= "\",\"token_id\":\""@);
    assert(s.subrange(ooff_tok(o), ooff_tok(o) + o.token_id@.len()) =~= o.token_id@);
    assert(s.subrange(ooff_tok(o) + o.token_id@.len(), ooff_side(o)) =~= "\",\"side\":\""@);
    assert(s.subrange(ooff_side(o), ooff_side(o) + spec_side_chars(o.side).len())
        =~= spec_side_chars(o.side));
    assert(s.subrange(ooff_side(o) + spec_side_chars(o.side).len(), ooff_price(o))
        =~= "\",\"price\":"@);
    assert(s.subrange(ooff_price(o), ooff_price(o) + spec_u64_chars(o.price as int).len())
        =~= spec_u64_chars(o.price as int));
    assert(s.subrange(ooff_price(o) + spec_u64_chars(o.price as int).len(), ooff_size(o))
        =~= ",\"size\":"@);
    assert(s.subrange(ooff_size(o), ooff_size(o) + spec_u64_chars(o.size as int).len())
        =~= spec_u64_chars(o.size as int));
    assert(s.subrange(ooff_size(o) + spec_u64_chars(o.size as int).len(), ooff_ts(o))
        =~= ",\"timestamp_ms\":"@);
    assert(s.subrange(ooff_ts(o), ooff_ts(o) + spec_u64_chars(o.timestamp_ms as int).len())
        =~= spec_u64_chars(o.timestamp_ms as int));
    assert(s.subrange(ooff_ts(o) + spec_u64_chars(o.timestamp_ms as int).len(), s.len() as int)
        =~= "}"@);
}

spec fn poff_tok(p: (String, u64)) -> int {
    "{\"token_id\":\""@.len() as int
}

spec fn poff_size(p: (String, u64)) -> int {
    poff_tok(p) + p.0@.len() + "\",\"size\":"@.len()
}

/// Where every piece of a canonical position line stands.
#[verifier::spinoff_prover]
#[verifier::rlimit(100)]
proof fn lemma_position_layout(s: Seq<char>, p: (String, u64))
    requires
        s == spec_position_line(p),
    ensures
        s.len() == poff_size(p) + spec_u64_chars(p.1 as int).len() + "}"@.len(),
        s.subrange(0, poff_tok(p)) == "{\"token_id\":\""@,
        s.subrange(poff_tok(p), poff_tok(p) + p.0@.len()) == p.0@,
        s.subrange(poff_tok(p) + p.0@.len(), poff_size(p)) == "\",\"size\":"@,
        s.subrange(poff_size(p), poff_size(p) + spec_u64_chars(p.1 as int).len())
            == spec_u64_chars(p.1 as int),
        s.subrange(poff_size(p) + spec_u64_chars(p.1 as int).len(), s.len() as int) == "}"@,
{
    reveal(spec_position_line);
    assert(s.subrange(0, poff_tok(p)) =~= "{\"token_id\":\""@);
    assert(s.subrange(poff_tok(p), poff_tok(p) + p.0@.len()) =~= p.0@);
    assert(s.subrange(poff_tok(p) + p.0@.len(), poff_size(p)) =~= "\",\"size\":"@);
    assert(s.subrange(poff_size(p), poff_size(p) + spec_u64_chars(p.1 as int).len())
        =~= spec_u64_chars(p.1 as int));
    assert(s.subrange(poff_size(p) + spec_u64_chars(p.1 as int).len(), s.len() as int)
        =~= "}"@);
}

/// `s` is the canonical header line of the wire-clean snapshot `snap`.
pub open spec fn spec_header_canon(s: Seq<char>, snap: BotStateSnapshot) -> bool {
    spec_text_plain(snap.version@) && s == spec_header_line(snap)
}

/// `s` is the canonical line of the wire-clean order `o`.
pub open spec fn spec_order_canon(s: Seq<char>, o: Order) -> bool {
    spec_order_wire_ok(o) && s == spec_order_line(o)
}

/// `s` is the canonical line of the position `p`.
pub open spec fn spec_position_canon(s: Seq<char>, p: (String, u64)) -> bool {
    spec_text_plain(p.0@) && s == spec_position_line(p)
}

/// Parse the version and the first two numbers of a header line;
/// complete on canonical input.
#[verifier::spinoff_prover]
#[verifier::rlimit(100)]
fn parse_header_head(s: &str) -> (r: Option<(String, u64, u64, usize)>)
    ensures
        r matches Some(t) ==> t.3 <= s@.len(),
        forall|snap: BotStateSnapshot|
            #[trigger] spec_header_canon(s@, snap) ==> (r matches Some(t)
                && t.0@ == snap.version@ && t.1 == snap.timestamp_ms
                && t.2 == snap.open_orders@.len() && t.3 == hoff_pc(snap)),
{
    let st1 = expect_lit(s, 0, "{\"version\":\"");
    proof {
        assert forall|snap: BotStateSnapshot| #[trigger] spec_header_canon(s@, snap) implies (
            st1 matches Some(j) && j == hoff_ver(snap)
        ) by {
            lemma_header_layout(s@, snap);
            reveal_strlit("{\"version\":\"");
        }
    }
    let i1 = match st1 {
        Some(v) => v,
        None => { return None; },
    };
    let st2 = read_string_field(s, i1);
    proof {
        assert forall|snap: BotStateSnapshot| #[trigger] spec_header_canon(s@, snap) implies (
            st2 matches Some(p) && p.0@ == snap.version@ && p.1 == hoff_ver(snap) + snap.version@.len() + 1
        ) by {
            lemma_header_layout(s@, snap);
            reveal_strlit("\",\"timestamp_ms\":");
            let a = hoff_ver(snap);
            let n = snap.version@.len() as int;
            assert forall|m: int| a <= m < a + n implies s@[m] != '"' by {
                assert(s@.subrange(a, a + n)[m - a] == s@[m]);
            }
            assert(s@.subrange(a + n, hoff_ts(snap))[0] == s@[a + n]);
            assert(s@[a + n] == '"');
            lemma_quote_index_at(s@, a, a + n);
        }
    }
    let (version_s, i2) = match st2 {
        Some(p) => p,
        None => { return None; },
    };
    let st3 = expect_lit(s, i2, ",\"timestamp_ms\":");
    proof {
        assert forall|snap: BotStateSnapshot| #[trigger] spec_header_canon(s@, snap) implies (
            st3 matches Some(j) && j == hoff_ts(snap)
        ) by {
            lemma_header_layout(s@, snap);
            reveal_strlit("\",\"timestamp_ms\":");
            reveal_strlit(",\"timestamp_ms\":");
            let segstart = hoff_ver(snap) + snap.version@.len();
            assert(s@.subrange(i2 as int, hoff_ts(snap)) =~= ",\"timestamp_ms\":"@) by {
                assert forall|m: int| 0 <= m < ",\"timestamp_ms\":"@.len() implies
                    s@.subrange(i2 as int, hoff_ts(snap))[m] == ",\"timestamp_ms\":"@[m] by {
                    assert(s@.subrange(segstart, hoff_ts(snap))[m + 1] == s@[segstart + 1 + m]);
                }
            }
        }
    }
    let i3 = match st3 {
        Some(v) => v,
        None => { return None; },
    };
    let st4 = read_u64_field(s, i3);
    proof {
        assert forall|snap: BotStateSnapshot| #[trigger] spec_header_canon(s@, snap) implies (
            st4 matches Some(p) && p.0 == snap.timestamp_ms as int && p.1 == hoff_ts(snap) + spec_u64_chars(snap.timestamp_ms as int).len()
        ) by {
            lemma_header_layout(s@, snap);
            lemma_u64_chars_decode(snap.timestamp_ms as int);
            reveal_strlit(",\"order_count\":");
            let a = hoff_ts(snap);
            let ch = spec_u64_chars(snap.timestamp_ms as int);
            let n = ch.len() as int;
            assert forall|m: int| a <= m < a + n implies
                (#[trigger] spec_digit_value(s@[m])) is Some by {
                assert(s@.subrange(a, a + n)[m - a] == s@[m]);
                assert(ch[m - a] == s@[m]);
            }
            assert(s@.subrange(a + n, a + n + ",\"order_count\":"@.len())[0] == s@[a + n]);
            assert(spec_digit_value(s@[a + n]) is None);
            lemma_digit_run_at(s@, a, a + n);
        }
    }
    let (ts_v, i4) = match st4 {
        Some(p) => p,
        None => { return None; },
    };
    let st5 = expect_lit(s, i4, ",\"order_count\":");
    proof {
        assert forall|snap: BotStateSnapshot| #[trigger] spec_header_canon(s@, snap) implies (
            st5 matches Some(j) && j == hoff_oc(snap)
        ) by {
            lemma_header_layout(s@, snap);
            reveal_strlit(",\"order_count\":");
        }
    }
    let i5 = match st5 {
        Some(v) => v,
        None => { return None; },
    };
    let st6 = read_u64_field(s, i5);
    proof {
        assert forall|snap: BotStateSnapshot| #[trigger] spec_header_canon(s@, snap) implies (
            st6 matches Some(p) && p.0 == snap.open_orders@.len() as int && p.1 == hoff_oc(snap) + spec_u64_chars(snap.open_orders@.len() as int).len()
        ) by {
            lemma_header_layout(s@, snap);
            lemma_u64_chars_decode(snap.open_orders@.len() as int);
            assert(snap.open_orders.len() == snap.open_orders@.len());
            reveal_strlit(",\"position_count\":");
            let a = hoff_oc(snap);
            let ch = spec_u64_chars(snap.open_orders@.len() as int);
            let n = ch.len() as int;
            assert forall|m: int| a <= m < a + n implies
                (#[trigger] spec_digit_value(s@[m])) is Some by {
                assert(s@.subrange(a, a + n)[m - a] == s@[m]);
                assert(ch[m - a] == s@[m]);
            }
            assert(s@.subrange(a + n, a + n + ",\"position_count\":"@.len())[0] == s@[a + n]);
            assert(spec_digit_value(s@[a + n]) is None);
            lemma_digit_run_at(s@, a, a + n);
        }
    }
    let (oc_v, i6) = match st6 {
        Some(p) => p,
        None => { return None; },
    };
    let st7 = expect_lit(s, i6, ",\"position_count\":");
    proof {
        assert forall|snap: BotStateSnapshot| #[trigger] spec_header_canon(s@, snap) implies (
            st7 matches Some(j) && j == hoff_pc(snap)
        ) by {
            lemma_header_layout(s@, snap);
            reveal_strlit(",\"position_count\":");
        }
    }
    let i7 = match st7 {
        Some(v) => v,
        None => { return None; },
    };
    Some((version_s, ts_v, oc_v, i7))
}

/// Parse the tail of a header line from the position-count offset on;
/// complete on canonical input.
#[verifier::spinoff_prover]
#[verifier::rlimit(100)]
fn parse_header_tail(s: &str, i7: usize) -> (r: Option<(u64, i64, u64)>)
    requires
        i7 <= s@.len(),
        forall|snap: BotStateSnapshot|
            #[trigger] spec_header_canon(s@, snap) ==> i7 == hoff_pc(snap),
    ensures
        forall|snap: BotStateSnapshot|
            #[trigger] spec_header_canon(s@, snap) ==> (r matches Some(t)
                && t.0 == snap.positions@.len() && t.1 == snap.cumulative_pnl
                && t.2 == snap.daily_loss),
{
    let st8 = read_u64_field(s, i7);
    proof {
        assert forall|snap: BotStateSnapshot| #[trigger] spec_header_canon(s@, snap) implies (
            st8 matches Some(p) && p.0 == snap.positions@.len() as int && p.1 == hoff_pc(snap) + spec_u64_chars(snap.positions@.len() as int).len()
        ) by {
            lemma_header_layout(s@, snap);
            lemma_u64_chars_decode(snap.positions@.len() as int);
            assert(snap.positions.len() == snap.positions@.len());
            reveal_strlit(",\"cumulative_pnl\":");
            let a = hoff_pc(snap);
            let ch = spec_u64_chars(snap.positions@.len() as int);
            let n = ch.len() as int;
            assert forall|m: int| a <= m < a + n implies
                (#[trigger] spec_digit_value(s@[m])) is Some by {
                assert(s@.subrange(a, a + n)[m - a] == s@[m]);
                assert(ch[m - a] == s@[m]);
            }
            assert(s@.subrange(a + n, a + n + ",\"cumulative_pnl\":"@.len())[0] == s@[a + n]);
            assert(spec_digit_value(s@[a + n]) is None);
            lemma_digit_run_at(s@, a, a + n);
        }
    }
    let (pc_v, i8) = match st8 {
        Some(p) => p,
        None => { return None; },
    };
    let st9 = expect_lit(s, i8, ",\"cumulative_pnl\":");
    proof {
        assert forall|snap: BotStateSnapshot| #[trigger] spec_header_canon(s@, snap) implies (
            st9 matches Some(j) && j == hoff_cp(snap)
        ) by {
            lemma_header_layout(s@, snap);
            reveal_strlit(",\"cumulative_pnl\":");
        }
    }
    let i9 = match st9 {
        Some(v) => v,
        None => { return None; },
    };
    let st10 = read_i64_field(s, i9);
    proof {
        assert forall|snap: BotStateSnapshot| #[trigger] spec_header_canon(s@, snap) implies (
            st10 matches Some(p) && p.0 == snap.cumulative_pnl
                && p.1 == hoff_cp(snap) + spec_i64_chars(snap.cumulative_pnl as int).len()
        ) by {
            lemma_header_layout(s@, snap);
            reveal_strlit(",\"daily_loss\":");
            let a = hoff_cp(snap);
            let ch = spec_i64_chars(snap.cumulative_pnl as int);
            let n = ch.len() as int;
            assert(s@.subrange(a + n, hoff_dl(snap))[0] == s@[a + n]);
            assert(s@[a + n] == ',');
            assert(spec_digit_value(s@[a + n]) is None);
            if snap.cumulative_pnl >= 0 {
                lemma_u64_chars_decode(snap.cumulative_pnl as int);
                assert(ch == spec_u64_chars(snap.cumulative_pnl as int));
                assert forall|m: int| a <= m < a + n implies
                    (#[trigger] spec_digit_value(s@[m])) is Some by {
                    assert(s@.subrange(a, a + n)[m - a] == s@[m]);
                    assert(ch[m - a] == s@[m]);
                }
                lemma_digit_run_at(s@, a, a + n);
                assert(s@.subrange(a, a + n) == ch);
                assert(spec_digit_value(s@[a]) is Some);
                assert(s@[a] != '-');
            } else {
                let mag = -(snap.cumulative_pnl as int);
                lemma_u64_chars_decode(mag);
                assert(ch == seq!['-'] + spec_u64_chars(mag));
                assert(s@.subrange(a, a + n)[0] == s@[a]);
                assert(s@[a] == '-');
                assert(s@.subrange(a + 1, a + n) =~= spec_u64_chars(mag)) by {
                    assert forall|m: int| 0 <= m < n - 1 implies
                        s@.subrange(a + 1, a + n)[m] == spec_u64_chars(mag)[m] by {
                        assert(s@.subrange(a, a + n)[m + 1] == s@[a + 1 + m]);
                        assert(ch[m + 1] == spec_u64_chars(mag)[m]);
                    }
                }
                assert forall|m: int| a + 1 <= m < a + n implies
                    (#[trigger] spec_digit_value(s@[m])) is Some by {
                    assert(s@.subrange(a + 1, a + n)[m - a - 1] == s@[m]);
                    assert(spec_u64_chars(mag)[m - a - 1] == s@[m]);
                }
                lemma_digit_run_at(s@, a + 1, a + n);
                assert(spec_digits_value(s@.subrange(a + 1, a + n)) == mag);
                assert(mag <= 0x8000_0000_0000_0000);
            }
        }
    }
    let (cp_v, i10) = match st10 {
        Some(p) => p,
        None => { return None; },
    };
    let st11 = expect_lit(s, i10, ",\"daily_loss\":");
    proof {
        assert forall|snap: BotStateSnapshot| #[trigger] spec_header_canon(s@, snap) implies (
            st11 matches Some(j) && j == hoff_dl(snap)
        ) by {
            lemma_header_layout(s@, snap);
            reveal_strlit(",\"daily_loss\":");
        }
    }
    let i11 = match st11 {
        Some(v) => v,
        None => { return None; },
    };
    let st12 = read_u64_field(s, i11);
    proof {
        assert forall|snap: BotStateSnapshot| #[trigger] spec_header_canon(s@, snap) implies (
            st12 matches Some(p) && p.0 == snap.daily_loss as int && p.1 == hoff_dl(snap) + spec_u64_chars(snap.daily_loss as int).len()
        ) by {
            lemma_header_layout(s@, snap);
            lemma_u64_chars_decode(snap.daily_loss as int);
            reveal_strlit("}");
            let a = hoff_dl(snap);
            let ch = spec_u64_chars(snap.daily_loss as int);
            let n = ch.len() as int;
            assert forall|m: int| a <= m < a + n implies
                (#[trigger] spec_digit_value(s@[m])) is Some by {
                assert(s@.subrange(a, a + n)[m - a] == s@[m]);
                assert(ch[m - a] == s@[m]);
            }
            assert(s@.subrange(a + n, a + n + "}"@.len())[0] == s@[a + n]);
            assert(spec_digit_value(s@[a + n]) is None);
            lemma_digit_run_at(s@, a, a + n);
        }
    }
    let (dl_v, i12) = match st12 {
        Some(p) => p,
        None => { return None; },
    };
    let st13 = expect_lit(s, i12, "}");
    proof {
        assert forall|snap: BotStateSnapshot| #[trigger] spec_header_canon(s@, snap) implies (
            st13 is Some
        ) by {
            lemma_header_layout(s@, snap);
            reveal_strlit("}");
            assert(s@.subrange(i12 as int, s@.len() as int) == "}"@);
        }
    }
    let _ = match st13 {
        Some(v) => v,
        None => { return None; },
    };
    Some((pc_v, cp_v, dl_v))
}

/// Parse one snapshot header line; complete on canonical input.
fn parse_header_line(s: &str) -> (r: Option<(String, u64, u64, u64, i64, u64)>)
    ensures
        forall|snap: BotStateSnapshot|
            #[trigger] spec_header_canon(s@, snap) ==> (r matches Some(t)
                && t.0@ == snap.version@ && t.1 == snap.timestamp_ms
                && t.2 == snap.open_orders@.len() && t.3 == snap.positions@.len()
                && t.4 == snap.cumulative_pnl && t.5 == snap.daily_loss),
{
    let (version_s, ts_v, oc_v, i7) = match parse_header_head(s) {
        Some(t) => t,
        None => { return None; },
    };
    let (pc_v, cp_v, dl_v) = match parse_header_tail(s, i7) {
        Some(t) => t,
        None => { return None; },
    };
    Some((version_s, ts_v, oc_v, pc_v, cp_v, dl_v))
}

/// Parse the strings of an order line; complete on canonical input.
#[verifier::spinoff_prover]
#[verifier::rlimit(100)]
fn parse_order_head(s: &str) -> (r: Option<(String, String, String, usize)>)
    ensures
        r matches Some(t) ==> t.3 <= s@.len(),
        forall|o: Order|
            #[trigger] spec_order_canon(s@, o) ==> (r matches Some(t)
                && t.0@ == o.id@ && t.1@ == o.token_id@ && t.2@ == spec_side_chars(o.side)
                && t.3 == ooff_price(o)),
{
    let st1 = expect_lit(s, 0, "{\"id\":\"");
    proof {
        assert forall|o: Order| #[trigger] spec_order_canon(s@, o) implies (
            st1 matches Some(j) && j == ooff_id(o)
        ) by {
            lemma_order_layout(s@, o);
            reveal_strlit("{\"id\":\"");
        }
    }
    let i1 = match st1 {
        Some(v) => v,
        None => { return None; },
    };
    let st2 = read_string_field(s, i1);
    proof {
        assert forall|o: Order| #[trigger] spec_order_canon(s@, o) implies (
            st2 matches Some(p) && p.0@ == o.id@ && p.1 == ooff_id(o) + o.id@.len() + 1
        ) by {
            lemma_order_layout(s@, o);
            reveal_strlit("\",\"token_id\":\"");
            let a = ooff_id(o);
            let n = o.id@.len() as int;
            assert forall|m: int| a <= m < a + n implies s@[m] != '"' by {
                assert(s@.subrange(a, a + n)[m - a] == s@[m]);
            }
            assert(s@.subrange(a + n, ooff_tok(o))[0] == s@[a + n]);
            assert(s@[a + n] == '"');
            lemma_quote_index_at(s@, a, a + n);
        }
    }
    let (id_s, i2) = match st2 {
        Some(p) => p,
        None => { return None; },
    };
    let st3 = expect_lit(s, i2, ",\"token_id\":\"");
    proof {
        assert forall|o: Order| #[trigger] spec_order_canon(s@, o) implies (
            st3 matches Some(j) && j == ooff_tok(o)
        ) by {
            lemma_order_layout(s@, o);
            reveal_strlit("\",\"token_id\":\"");
            reveal_strlit(",\"token_id\":\"");
            let segstart = ooff_id(o) + o.id@.len();
            assert(s@.subrange(i2 as int, ooff_tok(o)) =~= ",\"token_id\":\""@) by {
                assert forall|m: int| 0 <= m < ",\"token_id\":\""@.len() implies
                    s@.subrange(i2 as int, ooff_tok(o))[m] == ",\"token_id\":\""@[m] by {
                    assert(s@.subrange(segstart, ooff_tok(o))[m + 1] == s@[segstart + 1 + m]);
                }
            }
        }
    }
    let i3 = match st3 {
        Some(v) => v,
        None => { return None; },
    };
    let st4 = read_string_field(s, i3);
    proof {
        assert forall|o: Order| #[trigger] spec_order_canon(s@, o) implies (
            st4 matches Some(p) && p.0@ == o.token_id@ && p.1 == ooff_tok(o) + o.token_id@.len() + 1
        ) by {
            lemma_order_layout(s@, o);
            reveal_strlit("\",\"side\":\"");
            let a = ooff_tok(o);
            let n = o.token_id@.len() as int;
            assert forall|m: int| a <= m < a + n implies s@[m] != '"' by {
                assert(s@.subrange(a, a + n)[m - a] == s@[m]);
            }
            assert(s@.subrange(a + n, ooff_side(o))[0] == s@[a + n]);
            assert(s@[a + n] == '"');
            lemma_quote_index_at(s@, a, a + n);
        }
    }
    let (tok_s, i4) = match st4 {
        Some(p) => p,
        None => { return None; },
    };
    let st5 = expect_lit(s, i4, ",\"side\":\"");
    proof {
        assert forall|o: Order| #[trigger] spec_order_canon(s@, o) implies (
            st5 matches Some(j) && j == ooff_side(o)
        ) by {
            lemma_order_layout(s@, o);
            reveal_strlit("\",\"side\":\"");
            reveal_strlit(",\"side\":\"");
            let segstart = ooff_tok(o) + o.token_id@.len();
            assert(s@.subrange(i4 as int, ooff_side(o)) =~= ",\"side\":\""@) by {
                assert forall|m: int| 0 <= m < ",\"side\":\""@.len() implies
                    s@.subrange(i4 as int, ooff_side(o))[m] == ",\"side\":\""@[m] by {
                    assert(s@.subrange(segstart, ooff_side(o))[m + 1] == s@[segstart + 1 + m]);
                }
            }
        }
    }
    let i5 = match st5 {
        Some(v) => v,
        None => { return None; },
    };
    let st6 = read_string_field(s, i5);
    proof {
        assert forall|o: Order| #[trigger] spec_order_canon(s@, o) implies (
            st6 matches Some(p) && p.0@ == spec_side_chars(o.side)
                && p.1 == ooff_side(o) + spec_side_chars(o.side).len() + 1
        ) by {
            lemma_order_layout(s@, o);
            reveal_strlit("\",\"price\":");
            reveal_strlit("BUY");
            reveal_strlit("SELL");
            let a = ooff_side(o);
            let n = spec_side_chars(o.side).len() as int;
            assert forall|m: int| a <= m < a + n implies s@[m] != '"' by {
                assert(s@.subrange(a, a + n)[m - a] == s@[m]);
                assert(spec_side_chars(o.side)[m - a] == s@[m]);
            }
            assert(s@.subrange(a + n, ooff_price(o))[0] == s@[a + n]);
            assert(s@[a + n] == '"');
            lemma_quote_index_at(s@, a, a + n);
        }
    }
    let (side_s, i6) = match st6 {
        Some(p) => p,
        None => { return None; },
    };
    let st7 = expect_lit(s, i6, ",\"price\":");
    proof {
        assert forall|o: Order| #[trigger] spec_order_canon(s@, o) implies (
            st7 matches Some(j) && j == ooff_price(o)
        ) by {
            lemma_order_layout(s@, o);
            reveal_strlit("\",\"price\":");
            reveal_strlit(",\"price\":");
            let segstart = ooff_side(o) + spec_side_chars(o.side).len();
            assert(s@.subrange(i6 as int, ooff_price(o)) =~= ",\"price\":"@) by {
                assert forall|m: int| 0 <= m < ",\"price\":"@.len() implies
                    s@.subrange(i6 as int, ooff_price(o))[m] == ",\"price\":"@[m] by {
                    assert(s@.subrange(segstart, ooff_price(o))[m + 1] == s@[segstart + 1 + m]);
                }
            }
        }
    }
    let i7 = match st7 {
        Some(v) => v,
        None => { return None; },
    };
    Some((id_s, tok_s, side_s, i7))
}

/// Parse the numbers of an order line from the price offset on;
/// complete on canonical input.
#[verifier::spinoff_prover]
#[verifier::rlimit(100)]
fn parse_order_tail(s: &str, i7: usize) -> (r: Option<(u64, u64, u64)>)
    requires
        i7 <= s@.len(),
        forall|o: Order| #[trigger] spec_order_canon(s@, o) ==> i7 == ooff_price(o),
    ensures
        forall|o: Order|
            #[trigger] spec_order_canon(s@, o) ==> (r matches Some(t)
                && t.0 == o.price && t.1 == o.size && t.2 == o.timestamp_ms),
{
    let st8 = read_u64_field(s, i7);
    proof {
        assert forall|o: Order| #[trigger] spec_order_canon(s@, o) implies (
            st8 matches Some(p) && p.0 == o.price as int && p.1 == ooff_price(o) + spec_u64_chars(o.price as int).len()
        ) by {
            lemma_order_layout(s@, o);
            lemma_u64_chars_decode(o.price as int);
            reveal_strlit(",\"size\":");
            let a = ooff_price(o);
            let ch = spec_u64_chars(o.price as int);
            let n = ch.len() as int;
            assert forall|m: int| a <= m < a + n implies
                (#[trigger] spec_digit_value(s@[m])) is Some by {
                assert(s@.subrange(a, a + n)[m - a] == s@[m]);
                assert(ch[m - a] == s@[m]);
            }
            assert(s@.subrange(a + n, a + n + ",\"size\":"@.len())[0] == s@[a + n]);
            assert(spec_digit_value(s@[a + n]) is None);
            lemma_digit_run_at(s@, a, a + n);
        }
    }
    let (price_v, i8) = match st8 {
        Some(p) => p,
        None => { return None; },
    };
    let st9 = expect_lit(s, i8, ",\"size\":");
    proof {
        assert forall|o: Order| #[trigger] spec_order_canon(s@, o) implies (
            st9 matches Some(j) && j == ooff_size(o)
        ) by {
            lemma_order_layout(s@, o);
            reveal_strlit(",\"size\":");
        }
    }
    let i9 = match st9 {
        Some(v) => v,
        None => { return None; },
    };
    let st10 = read_u64_field(s, i9);
    proof {
        assert forall|o: Order| #[trigger] spec_order_canon(s@, o) implies (
            st10 matches Some(p) && p.0 == o.size as int && p.1 == ooff_size(o) + spec_u64_chars(o.size as int).len()
        ) by {
            lemma_order_layout(s@, o);
            lemma_u64_chars_decode(o.size as int);
            reveal_strlit(",\"timestamp_ms\":");
            let a = ooff_size(o);
            let ch = spec_u64_chars(o.size as int);
            let n = ch.len() as int;
            assert forall|m: int| a <= m < a + n implies
                (#[trigger] spec_digit_value(s@[m])) is Some by {
                assert(s@.subrange(a, a + n)[m - a] == s@[m]);
                assert(ch[m - a] == s@[m]);
            }
            assert(s@.subrange(a + n, a + n + ",\"timestamp_ms\":"@.len())[0] == s@[a + n]);
            assert(spec_digit_value(s@[a + n]) is None);
            lemma_digit_run_at(s@, a, a + n);
        }
    }
    let (size_v, i10) = match st10 {
        Some(p) => p,
        None => { return None; },
    };
    let st11 = expect_lit(s, i10, ",\"timestamp_ms\":");
    proof {
        assert forall|o: Order| #[trigger] spec_order_canon(s@, o) implies (
            st11 matches Some(j) && j == ooff_ts(o)
        ) by {
            lemma_order_layout(s@, o);
            reveal_strlit(",\"timestamp_ms\":");
        }
    }
    let i11 = match st11 {
        Some(v) => v,
        None => { return None; },
    };
    let st12 = read_u64_field(s, i11);
    proof {
        assert forall|o: Order| #[trigger] spec_order_canon(s@, o) implies (
            st12 matches Some(p) && p.0 == o.timestamp_ms as int && p.1 == ooff_ts(o) + spec_u64_chars(o.timestamp_ms as int).len()
        ) by {
            lemma_order_layout(s@, o);
            lemma_u64_chars_decode(o.timestamp_ms as int);
            reveal_strlit("}");
            let a = ooff_ts(o);
            let ch = spec_u64_chars(o.timestamp_ms as int);
            let n = ch.len() as int;
            assert forall|m: int| a <= m < a + n implies
                (#[trigger] spec_digit_value(s@[m])) is Some by {
                assert(s@.subrange(a, a + n)[m - a] == s@[m]);
                assert(ch[m - a] == s@[m]);
            }
            assert(s@.subrange(a + n, a + n + "}"@.len())[0] == s@[a + n]);
            assert(spec_digit_value(s@[a + n]) is None);
            lemma_digit_run_at(s@, a, a + n);
        }
    }
    let (ts_v, i12) = match st12 {
        Some(p) => p,
        None => { return None; },
    };
    let st13 = expect_lit(s, i12, "}");
    proof {
        assert forall|o: Order| #[trigger] spec_order_canon(s@, o) implies (
            st13 is Some
        ) by {
            lemma_order_layout(s@, o);
            reveal_strlit("}");
            assert(s@.subrange(i12 as int, s@.len() as int) == "}"@);
        }
    }
    let _ = match st13 {
        Some(v) => v,
        None => { return None; },
    };
    Some((price_v, size_v, ts_v))
}

/// Parse one order line; complete on canonical input.
fn parse_order_line(s: &str) -> (r: Option<Order>)
    ensures
        forall|o: Order|
            #[trigger] spec_order_canon(s@, o) ==> (r matches Some(p)
                && spec_order_fields_match(p, o)),
{
    let (id_s, tok_s, side_s, i7) = match parse_order_head(s) {
        Some(t) => t,
        None => { return None; },
    };
    let side: TradeSide = if side_s == String::from_str("BUY") {
        TradeSide::Buy
    } else if side_s == String::from_str("SELL") {
        TradeSide::Sell
    } else {
        proof {
            assert forall|o: Order| #[trigger] spec_order_canon(s@, o) implies false by {
                reveal_strlit("BUY");
                reveal_strlit("SELL");
            }
        }
        return None;
    };
    proof {
        assert forall|o: Order| #[trigger] spec_order_canon(s@, o) implies side == o.side by {
            reveal_strlit("BUY");
            reveal_strlit("SELL");
            assert("BUY"@.len() != "SELL"@.len());
        }
    }
    let (price_v, size_v, ts_v) = match parse_order_tail(s, i7) {
        Some(t) => t,
        None => { return None; },
    };
    Some(
        Order {
            id: id_s,
            token_id: tok_s,
            side,
            price: price_v,
            size: size_v,
            order_type: OrderType::Gtc,
            post_only: true,
            timestamp_ms: ts_v,
        },
    )
}

/// Parse one position line; complete on canonical input.
#[verifier::spinoff_prover]
#[verifier::rlimit(100)]
fn parse_position_line(s: &str) -> (r: Option<(String, u64)>)
    ensures
        forall|pos: (String, u64)|
            #[trigger] spec_position_canon(s@, pos) ==> (r matches Some(q)
                && q.0@ == pos.0@ && q.1 == pos.1),
{
    let st1 = expect_lit(s, 0, "{\"token_id\":\"");
    proof {
        assert forall|pos: (String, u64)| #[trigger] spec_position_canon(s@, pos) implies (
            st1 matches Some(j) && j == poff_tok(pos)
        ) by {
            lemma_position_layout(s@, pos);
            reveal_strlit("{\"token_id\":\"");
        }
    }
    let i1 = match st1 {
        Some(v) => v,
        None => { return None; },
    };
    let st2 = read_string_field(s, i1);
    proof {
        assert forall|pos: (String, u64)| #[trigger] spec_position_canon(s@, pos) implies (
            st2 matches Some(q) && q.0@ == pos.0@ && q.1 == poff_tok(pos) + pos.0@.len() + 1
        ) by {
            lemma_position_layout(s@, pos);
            reveal_strlit("\",\"size\":");
            let a = poff_tok(pos);
            let n = pos.0@.len() as int;
            assert forall|m: int| a <= m < a + n implies s@[m] != '"' by {
                assert(s@.subrange(a, a + n)[m - a] == s@[m]);
            }
            assert(s@.subrange(a + n, poff_size(pos))[0] == s@[a + n]);
            assert(s@[a + n] == '"');
            lemma_quote_index_at(s@, a, a + n);
        }
    }
    let (tok_s, i2) = match st2 {
        Some(q) => q,
        None => { return None; },
    };
    let st3 = expect_lit(s, i2, ",\"size\":");
    proof {
        assert forall|pos: (String, u64)| #[trigger] spec_position_canon(s@, pos) implies (
            st3 matches Some(j) && j == poff_size(pos)
        ) by {
            lemma_position_layout(s@, pos);
            reveal_strlit("\",\"size\":");
            reveal_strlit(",\"size\":");
            let segstart = poff_tok(pos) + pos.0@.len();
            assert(s@.subrange(i2 as int, poff_size(pos)) =~= ",\"size\":"@) by {
                assert forall|m: int| 0 <= m < ",\"size\":"@.len() implies
                    s@.subrange(i2 as int, poff_size(pos))[m] == ",\"size\":"@[m] by {
                    assert(s@.subrange(segstart, poff_size(pos))[m + 1] == s@[segstart + 1 + m]);
                }
            }
        }
    }
    let i3 = match st3 {
        Some(v) => v,
        None => { return None; },
    };
    let st4 = read_u64_field(s, i3);
    proof {
        assert forall|pos: (String, u64)| #[trigger] spec_position_canon(s@, pos) implies (
            st4 matches Some(q) && q.0 == pos.1
                && q.1 == poff_size(pos) + spec_u64_chars(pos.1 as int).len()
        ) by {
            lemma_position_layout(s@, pos);
            lemma_u64_chars_decode(pos.1 as int);
            reveal_strlit("}");
            let a = poff_size(pos);
            let ch = spec_u64_chars(pos.1 as int);
            let n = ch.len() as int;
            assert forall|m: int| a <= m < a + n implies
                (#[trigger] spec_digit_value(s@[m])) is Some by {
                assert(s@.subrange(a, a + n)[m - a] == s@[m]);
                assert(ch[m - a] == s@[m]);
            }
            assert(s@.subrange(a + n, a + n + "}"@.len())[0] == s@[a + n]);
            assert(spec_digit_value(s@[a + n]) is None);
            lemma_digit_run_at(s@, a, a + n);
        }
    }
    let (held_v, i4) = match st4 {
        Some(q) => q,
        None => { return None; },
    };
    let st5 = expect_lit(s, i4, "}");
    proof {
        assert forall|pos: (String, u64)| #[trigger] spec_position_canon(s@, pos) implies (
            st5 is Some
        ) by {
            lemma_position_layout(s@, pos);
            reveal_strlit("}");
            assert(s@.subrange(i4 as int, s@.len() as int) == "}"@);
        }
    }
    let _ = match st5 {
        Some(v) => v,
        None => { return None; },
    };
    Some((tok_s, held_v))
}

/// Snapshots with matching fields have identical canonical lines.
#[verifier::spinoff_prover]
#[verifier::rlimit(100)]
proof fn lemma_snapshot_lines_congruence(p: BotStateSnapshot, snap: BotStateSnapshot)
    requires
        spec_snapshot_fields_match(p, snap),
    ensures
        spec_snapshot_lines(p).len() == spec_snapshot_lines(snap).len(),
        forall|i: int|
            0 <= i < spec_snapshot_lines(p).len()
                ==> #[trigger] spec_snapshot_lines(p)[i] == spec_snapshot_lines(snap)[i],
{
    let n = snap.open_orders@.len() as int;
    assert forall|i: int| 0 <= i < spec_snapshot_lines(p).len() implies
        #[trigger] spec_snapshot_lines(p)[i] == spec_snapshot_lines(snap)[i] by {
        if i == 0 {
            reveal(spec_header_line);
            assert(spec_header_line(p) == spec_header_line(snap));
        } else if i <= n {
            reveal(spec_order_line);
            assert(spec_order_fields_match(p.open_orders@[i - 1], snap.open_orders@[i - 1]));
            assert(spec_side_chars(p.open_orders@[i - 1].side)
                == spec_side_chars(snap.open_orders@[i - 1].side));
            assert(spec_order_line(p.open_orders@[i - 1])
                == spec_order_line(snap.open_orders@[i - 1]));
        } else {
            reveal(spec_position_line);
            assert(p.positions@[i - 1 - n].0@ == snap.positions@[i - 1 - n].0@
                && p.positions@[i - 1 - n].1 == snap.positions@[i - 1 - n].1);
            assert(spec_position_line(p.positions@[i - 1 - n])
                == spec_position_line(snap.positions@[i - 1 - n]));
        }
    }
}

/// Whether two line vectors agree, line for line.
fn lines_equal(a: &Vec<String>, b: &Vec<String>) -> (r: bool)
    ensures
        r == (a@.len() == b@.len() && forall|i: int|
            0 <= i < a@.len() ==> (#[trigger] a@[i])@ == b@[i]@),
{
    if a.len() != b.len() {
        return false;
    }
    let mut i: usize = 0;
    while i < a.len()
        invariant
            0 <= i <= a@.len() == b@.len(),
            forall|j: int| 0 <= j < i ==> (#[trigger] a@[j])@ == b@[j]@,
        decreases a@.len() - i,
    {
        if !string_eq_str(&a[i], b[i].as_str()) {
            return false;
        }
        i = i + 1;
    }
    true
}

/// Decode a snapshot from its lines.  Accepts exactly the canonical
/// lines the encoder writes: a returned snapshot always re-encodes to
/// the input lines, and every wire-clean snapshot's canonical lines
/// decode back to that snapshot's state.
pub fn decode_snapshot(lines: &Vec<String>) -> (r: Option<BotStateSnapshot>)
    ensures
        r matches Some(p) ==> (lines@.len() == spec_snapshot_lines(p).len() && forall|i: int|
            0 <= i < lines@.len() ==> (#[trigger] lines@[i])@ == spec_snapshot_lines(p)[i]),
        forall|snap: BotStateSnapshot|
            #[trigger] spec_snap_canon(lines@, snap) ==> (r matches Some(p)
                && spec_snapshot_fields_match(p, snap)),
{
    if lines.len() == 0 {
        return None;
    }
    let sth = parse_header_line(lines[0].as_str());
    proof {
        assert forall|snap: BotStateSnapshot| #[trigger] spec_snap_canon(lines@, snap) implies (
            sth matches Some(t) && t.0@ == snap.version@ && t.1 == snap.timestamp_ms
                && t.2 == snap.open_orders@.len() && t.3 == snap.positions@.len()
                && t.4 == snap.cumulative_pnl && t.5 == snap.daily_loss
        ) by {
            assert(lines@[0]@ == spec_snapshot_lines(snap)[0]);
            assert(spec_snapshot_lines(snap)[0] == spec_header_line(snap));
            assert(spec_header_canon(lines@[0]@, snap));
        }
    }
    let (version_s, ts_v, oc_v, pc_v, cp_v, dl_v) = match sth {
        Some(t) => t,
        None => { return None; },
    };
    if (oc_v as u128) + (pc_v as u128) + 1 != lines.len() as u128 {
        proof {
            assert forall|snap: BotStateSnapshot| #[trigger] spec_snap_canon(lines@, snap)
                implies false by {
                assert(lines@.len() == 1 + snap.open_orders@.len() + snap.positions@.len());
            }
        }
        return None;
    }
    let n: usize = oc_v as usize;
    let m: usize = pc_v as usize;
    let mut orders: Vec<Order> = Vec::new();
    let mut k: usize = 0;
    while k < n
        invariant
            0 <= k <= n,
            orders@.len() == k,
            n + m + 1 == lines@.len(),
            forall|snap: BotStateSnapshot|
                #[trigger] spec_snap_canon(lines@, snap) ==> (n == snap.open_orders@.len()
                    && m == snap.positions@.len() && forall|q: int|
                    0 <= q < k ==> spec_order_fields_match(
                        #[trigger] orders@[q],
                        snap.open_orders@[q],
                    )),
        decreases n - k,
    {
        proof {
            assert(lines.len() == lines@.len());
        }
        let sto = parse_order_line(lines[1 + k].as_str());
        proof {
            assert forall|snap: BotStateSnapshot| #[trigger] spec_snap_canon(lines@, snap)
                implies (sto matches Some(p) && spec_order_fields_match(
                p,
                snap.open_orders@[k as int],
            )) by {
                assert(lines@[1 + k]@ == spec_snapshot_lines(snap)[1 + k]);
                assert(spec_snapshot_lines(snap)[1 + k] == spec_order_line(
                    snap.open_orders@[k as int],
                ));
                assert(spec_order_wire_ok(snap.open_orders@[k as int]));
                assert(spec_order_canon(lines@[1 + k]@, snap.open_orders@[k as int]));
            }
        }
        let order = match sto {
            Some(p) => p,
            None => { return None; },
        };
        let ghost before = orders@;
        orders.push(order);
        k = k + 1;
        proof {
            assert forall|snap: BotStateSnapshot| #[trigger] spec_snap_canon(lines@, snap)
                implies (forall|q: int|
                0 <= q < k ==> spec_order_fields_match(
                    #[trigger] orders@[q],
                    snap.open_orders@[q],
                )) by {
                assert forall|q: int| 0 <= q < k implies spec_order_fields_match(
                    #[trigger] orders@[q],
                    snap.open_orders@[q],
                ) by {
                    if q < k - 1 {
                        assert(orders@[q] == before[q]);
                    } else {
                        assert(orders@[q] == order);
                    }
                }
            }
        }
    }
    let mut positions: Vec<(String, u64)> = Vec::new();
    let mut j: usize = 0;
    while j < m
        invariant
            0 <= j <= m,
            positions@.len() == j,
            orders@.len() == n,
            n + m + 1 == lines@.len(),
            forall|snap: BotStateSnapshot|
                #[trigger] spec_snap_canon(lines@, snap) ==> (n == snap.open_orders@.len()
                    && m == snap.positions@.len() && (forall|q: int|
                    0 <= q < n ==> spec_order_fields_match(
                        #[trigger] orders@[q],
                        snap.open_orders@[q],
                    )) && (forall|q: int|
                    0 <= q < j ==> (#[trigger] positions@[q]).0@ == snap.positions@[q].0@
                        && positions@[q].1 == snap.positions@[q].1)),
        decreases m - j,
    {
        proof {
            assert(lines.len() == lines@.len());
        }
        let stp = parse_position_line(lines[1 + n + j].as_str());
        proof {
            assert forall|snap: BotStateSnapshot| #[trigger] spec_snap_canon(lines@, snap)
                implies (stp matches Some(q) && q.0@ == snap.positions@[j as int].0@ && q.1
                == snap.positions@[j as int].1) by {
                assert(lines@[1 + n + j]@ == spec_snapshot_lines(snap)[1 + n + j]);
                assert(spec_snapshot_lines(snap)[1 + n + j] == spec_position_line(
                    snap.positions@[j as int],
                ));
                assert(spec_text_plain(snap.positions@[j as int].0@));
                assert(spec_position_canon(lines@[1 + n + j]@, snap.positions@[j as int]));
            }
        }
        let position = match stp {
            Some(q) => q,
            None => { return None; },
        };
        let ghost before = positions@;
        positions.push(position);
        j = j + 1;
        proof {
            assert forall|snap: BotStateSnapshot| #[trigger] spec_snap_canon(lines@, snap)
                implies (forall|q: int|
                0 <= q < j ==> (#[trigger] positions@[q]).0@ == snap.positions@[q].0@
                    && positions@[q].1 == snap.positions@[q].1) by {
                assert forall|q: int| 0 <= q < j implies (#[trigger] positions@[q]).0@
                    == snap.positions@[q].0@ && positions@[q].1 == snap.positions@[q].1 by {
                    if q < j - 1 {
                        assert(positions@[q] == before[q]);
                    } else {
                        assert(positions@[q] == position);
                    }
                }
            }
        }
    }
    let parsed = BotStateSnapshot {
        version: version_s,
        timestamp_ms: ts_v,
        open_orders: orders,
        positions,
        cumulative_pnl: cp_v,
        daily_loss: dl_v,
    };
    let redone: Vec<String> = encode_snapshot(&parsed);
    if lines_equal(&redone, lines) {
        proof {
            assert forall|i: int| 0 <= i < lines@.len() implies (#[trigger] lines@[i])@
                == spec_snapshot_lines(parsed)[i] by {
                assert(redone@[i]@ == lines@[i]@);
                assert(redone@[i]@ == spec_snapshot_lines(parsed)[i]);
            }
        }
        Some(parsed)
    } else {
        proof {
            assert forall|snap: BotStateSnapshot| #[trigger] spec_snap_canon(lines@, snap)
                implies false by {
                assert(spec_snapshot_fields_match(parsed, snap));
                lemma_snapshot_lines_congruence(parsed, snap);
                assert forall|i: int| 0 <= i < redone@.len() implies (#[trigger] redone@[i])@
                    == lines@[i]@ by {
                    assert(redone@[i]@ == spec_snapshot_lines(parsed)[i]);
                    assert(spec_snapshot_lines(parsed)[i] == spec_snapshot_lines(snap)[i]);
                    assert(lines@[i]@ == spec_snapshot_lines(snap)[i]);
                }
            }
        }
        None
    }
}

} // verus!
