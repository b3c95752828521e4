//! CLOB REST boundary: the wire types, the retry policy, the response
//! classification, and the verified parsing of the venue's decimal
//! price strings and order books.
//!
//! The HTTP transport lives outside; it hands responses in as plain
//! values and follows the decisions made here.

use vstd::prelude::*;

use crate::fixed::SCALE;
use crate::numfmt::{spec_digit_char, spec_u64_chars};
use crate::ports::VenueOrderStatus;

verus! {

/// Order request payload for the venue.
#[derive(Debug, Clone)]
pub struct CreateOrderRequest {
    /// Token to trade.
    pub token_id: String,
    /// Price in micro-units.
    pub price: u64,
    /// Size in micro-contracts.
    pub size: u64,
    /// Side label, "BUY" or "SELL".
    pub side: String,
    /// Fee rate in basis points; zero for makers.
    pub fee_rate_bps: u32,
    /// Nonce for replay protection.
    pub nonce: u64,
    /// Expiration timestamp; zero for good-til-cancelled.
    pub expiration: u64,
    /// Request signature.
    pub signature: String,
    /// Signer address.
    pub maker: String,
    /// Order type label, "GTC" or "GTD".
    pub order_type: String,
}

/// Response from order creation.
#[derive(Debug, Clone)]
pub struct CreateOrderResponse {
    /// Whether the order was accepted.
    pub success: bool,
    /// Assigned order id.
    pub order_id: Option<String>,
    /// Error message when rejected.
    pub error_msg: Option<String>,
    /// Server timestamp.
    pub timestamp: Option<u64>,
}

/// Cancel-order request.
#[derive(Debug, Clone)]
pub struct CancelOrderRequest {
    /// Order to cancel.
    pub order_id: String,
}

/// Cancel-order response.
#[derive(Debug, Clone)]
pub struct CancelOrderResponse {
    /// Whether the cancellation succeeded.
    pub success: bool,
    /// Error message when it failed.
    pub error_msg: Option<String>,
}

/// Cancel-all response.
#[derive(Debug, Clone)]
pub struct CancelAllResponse {
    /// How many orders were cancelled.
    pub cancelled: usize,
}

/// One order-book level as the venue sends it.
#[derive(Debug, Clone)]
pub struct OrderBookLevel {
    /// Price as decimal text.
    pub price: String,
    /// Size as decimal text.
    pub size: String,
}

/// Order-book response from the venue.
#[derive(Debug, Clone)]
pub struct OrderBookResponse {
    /// Bid levels, prices descending.
    pub bids: Vec<OrderBookLevel>,
    /// Ask levels, prices ascending.
    pub asks: Vec<OrderBookLevel>,
    /// Market hash or token id.
    pub hash: Option<String>,
    /// Snapshot timestamp text.
    pub timestamp: Option<String>,
}

/// Open-order info from the venue.
#[derive(Debug, Clone)]
pub struct OpenOrderInfo {
    /// Venue order id.
    pub id: String,
    /// Token id.
    pub asset_id: String,
    /// Side label.
    pub side: String,
    /// Price as decimal text.
    pub price: String,
    /// Original size as decimal text.
    pub original_size: String,
    /// Matched size as decimal text.
    pub size_matched: String,
    /// Status label.
    pub status: String,
    /// Creation timestamp text.
    pub created_at: Option<String>,
}

/// Error payload from the venue.
#[derive(Debug, Clone)]
pub struct ApiError {
    /// Error message.
    pub error: Option<String>,
    /// Error code.
    pub code: Option<u32>,
}

/// Authentication token response.
#[derive(Debug, Clone)]
pub struct AuthTokenResponse {
    /// The token.
    pub token: String,
    /// Expiration timestamp.
    pub expires_at: Option<u64>,
}

/// Rate-limit counters from response headers.
#[derive(Debug, Clone)]
pub struct RateLimitInfo {
    /// Requests left in the window.
    pub remaining: u32,
    /// When the window resets, Unix milliseconds.
    pub reset_ms: u64,
    /// Requests per window.
    pub limit: u32,
}

/// HTTP client configuration.
#[derive(Debug, Clone)]
pub struct ClobClientConfig {
    /// REST base URL.
    pub base_url: String,
    /// Request timeout, milliseconds.
    pub timeout_ms: u64,
    /// Maximum concurrent requests.
    pub max_concurrent: usize,
    /// Maximum retries on transient failures.
    pub max_retries: u32,
    /// Base delay between retries, milliseconds.
    pub retry_base_delay_ms: u64,
}

impl Default for ClobClientConfig {
    /// The production venue with a thirty-second timeout, ten
    /// concurrent requests and three retries from a 200 ms base.
    fn default() -> (r: ClobClientConfig)
        ensures
            r.base_url@ == "https://clob.polymarket.com"@,
            r.timeout_ms == 30_000,
            r.max_concurrent == 10,
            r.max_retries == 3,
            r.retry_base_delay_ms == 200,
    {
        ClobClientConfig {
            base_url: String::from_str("https://clob.polymarket.com"),
            timeout_ms: 30_000,
            max_concurrent: 10,
            max_retries: 3,
            retry_base_delay_ms: 200,
        }
    }
}

/// What the transport must do with an HTTP answer.
#[derive(Debug, Clone, Copy, PartialEq, Eq, Structural)]
pub enum RetryDecision {
    /// The request succeeded.
    Succeed,
    /// Rate limited: back off two seconds, then retry.
    RetryRateLimited,
    /// Server error: retry with exponential backoff.
    RetryServerError,
    /// Client error: fail, never retry.
    FailPermanent,
}

/// Classify an HTTP status: success on 200 and 201, a rate-limit
/// backoff on 429, a retry on any server error, and a permanent
/// failure on everything else.
pub fn classify_http_status(status: u16) -> (r: RetryDecision)
    ensures
        r == (if status == 200 || status == 201 {
            RetryDecision::Succeed
        } else if status == 429 {
            RetryDecision::RetryRateLimited
        } else if 500 <= status <= 599 {
            RetryDecision::RetryServerError
        } else {
            RetryDecision::FailPermanent
        }),
{
    if status == 200 || status == 201 {
        RetryDecision::Succeed
    } else if status == 429 {
        RetryDecision::RetryRateLimited
    } else if 500 <= status && status <= 599 {
        RetryDecision::RetryServerError
    } else {
        RetryDecision::FailPermanent
    }
}

/// `2^n` over the integers.
pub open spec fn spec_pow2(n: nat) -> int
    decreases n,
{
    if n == 0 {
        1
    } else {
        2 * spec_pow2((n - 1) as nat)
    }
}

/// The exponential backoff before retry `attempt` (counted from one):
/// `base * 2^(attempt - 1)` milliseconds.
pub fn retry_delay_ms(base_ms: u64, attempt: u32) -> (r: u64)
    requires
        1 <= attempt <= 16,
        base_ms <= 1_000_000,
    ensures
        r == base_ms * spec_pow2((attempt - 1) as nat),
{
    let mut delay: u64 = base_ms;
    let mut i: u32 = 1;
    while i < attempt
        invariant
            1 <= i <= attempt <= 16,
            base_ms <= 1_000_000,
            delay == base_ms * spec_pow2((i - 1) as nat),
        decreases attempt - i,
    {
        proof {
            lemma_pow2_monotone((i - 1) as nat, 15);
            assert(spec_pow2(15) == 0x8000) by {
                reveal_with_fuel(spec_pow2, 17);
            }
            assert(base_ms * spec_pow2((i - 1) as nat) <= 1_000_000 * 0x8000)
                by (nonlinear_arith)
                requires
                    0 <= base_ms <= 1_000_000,
                    0 <= spec_pow2((i - 1) as nat) <= 0x8000,
            ;
            assert(2 * (base_ms * spec_pow2((i - 1) as nat))
                == base_ms * (2 * spec_pow2((i - 1) as nat))) by (nonlinear_arith);
        }
        delay = 2 * delay;
        i = i + 1;
    }
    delay
}

/// Powers of two are positive and grow with the exponent.
proof fn lemma_pow2_monotone(a: nat, b: nat)
    requires
        a <= b,
    ensures
        1 <= spec_pow2(a) <= spec_pow2(b),
    decreases b,
{
    if a < b {
        lemma_pow2_monotone(a, (b - 1) as nat);
    } else if a > 0 {
        lemma_pow2_monotone((a - 1) as nat, (b - 1) as nat);
    }
}

/// Map a venue status label and its fill numbers to the order status.
/// "OPEN" and "LIVE" are open, "FILLED" and "MATCHED" filled,
/// "PARTIALLY_FILLED" partially filled, "CANCELLED" and "EXPIRED"
/// cancelled; anything else is unknown.
pub fn venue_order_status(
    status: &String,
    remaining_size: u64,
    original_size: u64,
    filled_size: u64,
    avg_price: u64,
) -> (r: VenueOrderStatus)
    ensures
        r == (if status@ == "OPEN"@ || status@ == "LIVE"@ {
            VenueOrderStatus::Open { remaining_size, original_size }
        } else if status@ == "FILLED"@ || status@ == "MATCHED"@ {
            VenueOrderStatus::Filled { avg_price, filled_size }
        } else if status@ == "PARTIALLY_FILLED"@ {
            VenueOrderStatus::PartiallyFilled { filled_size, remaining_size, avg_price }
        } else if status@ == "CANCELLED"@ || status@ == "EXPIRED"@ {
            VenueOrderStatus::Cancelled
        } else {
            VenueOrderStatus::Unknown
        }),
{
    if *status == String::from_str("OPEN") || *status == String::from_str("LIVE") {
        VenueOrderStatus::Open { remaining_size, original_size }
    } else if *status == String::from_str("FILLED") || *status == String::from_str("MATCHED") {
        VenueOrderStatus::Filled { avg_price, filled_size }
    } else if *status == String::from_str("PARTIALLY_FILLED") {
        VenueOrderStatus::PartiallyFilled { filled_size, remaining_size, avg_price }
    } else if *status == String::from_str("CANCELLED") || *status == String::from_str("EXPIRED") {
        VenueOrderStatus::Cancelled
    } else {
        VenueOrderStatus::Unknown
    }
}

/// The micro-unit value a decimal string denotes: a non-empty integer
/// part, optionally a point followed by one to six fraction digits;
/// `None` for any other shape or a value too large for 64 bits.
pub open spec fn spec_parse_units(s: Seq<char>) -> Option<u64> {
    let point = spec_point_index(s, 0);
    let whole = s.subrange(0, point);
    let frac = if point == s.len() {
        Seq::<char>::empty()
    } else {
        s.subrange(point + 1, s.len() as int)
    };
    if whole.len() == 0 || !spec_all_digits(whole) {
        None
    } else if point < s.len() && (frac.len() == 0 || frac.len() > 6 || !spec_all_digits(frac)) {
        None
    } else {
        let value = spec_digits_value(whole) * SCALE + spec_digits_value(frac) * spec_pow10(
            (6 - frac.len()) as nat,
        );
        if value <= u64::MAX {
            Some(value as u64)
        } else {
            None
        }
    }
}

/// The index of the first point character at or after `i`, or the
/// length when there is none.
pub open spec fn spec_point_index(s: Seq<char>, i: int) -> int
    decreases s.len() - i when 0 <= i <= s.len()
{
    if i >= s.len() {
        s.len() as int
    } else if s[i] == '.' {
        i
    } else {
        spec_point_index(s, i + 1)
    }
}

/// `10^n` over the integers.
pub open spec fn spec_pow10(n: nat) -> int
    decreases n,
{
    if n == 0 {
        1
    } else {
        10 * spec_pow10((n - 1) as nat)
    }
}

/// Small powers of ten, for the fraction scaling.
fn pow10_small(n: u64) -> (r: u64)
    requires
        n <= 6,
    ensures
        r == spec_pow10(n as nat),
        r <= SCALE,
{
    proof {
        lemma_pow10_six();
    }
    let mut r: u64 = 1;
    let mut i: u64 = 0;
    while i < n
        invariant
            0 <= i <= n <= 6,
            r == spec_pow10(i as nat),
        decreases n - i,
    {
        proof {
            lemma_pow10_monotone((i + 1) as nat, 6);
            lemma_pow10_six();
        }
        r = 10 * r;
        i = i + 1;
    }
    proof {
        lemma_pow10_monotone(n as nat, 6);
        lemma_pow10_six();
    }
    r
}

/// Ten to the sixth is one million.
proof fn lemma_pow10_six()
    ensures
        spec_pow10(6) == 1_000_000,
{
    reveal_with_fuel(spec_pow10, 8);
}

/// Powers of ten are positive and grow with the exponent.
proof fn lemma_pow10_monotone(a: nat, b: nat)
    requires
        a <= b,
    ensures
        1 <= spec_pow10(a) <= spec_pow10(b),
    decreases b,
{
    if a < b {
        lemma_pow10_monotone(a, (b - 1) as nat);
    } else if a > 0 {
        lemma_pow10_monotone((a - 1) as nat, (b - 1) as nat);
    }
}

/// Parse a venue decimal string into micro-units.
pub fn parse_units(s: &str) -> (r: Option<u64>)
    ensures
        r == spec_parse_units(s@),
{
    let n: usize = s.unicode_len();
    // Find the decimal point.
    let mut point: usize = 0;
    while point < n && s.get_char(point) != '.'
        invariant
            0 <= point <= n == s@.len(),
            spec_point_index(s@, 0) == spec_point_index(s@, point as int),
        decreases n - point,
    {
        point = point + 1;
    }
    proof {
        if point < n {
            assert(spec_point_index(s@, point as int) == point);
        }
    }
    let whole: Option<u64> = parse_digits(s, 0, point);
    proof {
        assert(s@.subrange(0, point as int) =~= s@.subrange(0, spec_point_index(s@, 0)));
    }
    let whole_value: u64 = match whole {
        Some(v) => v,
        None => {
            proof {
                // The integer part is empty, holds a non-digit, or its
                // value alone already exceeds 64 bits; every case makes
                // the whole string unparseable.
                let wh = s@.subrange(0, point as int);
                if wh.len() > 0 && spec_all_digits(wh) {
                    let fr = if point as int == s@.len() {
                        Seq::<char>::empty()
                    } else {
                        s@.subrange(point + 1, s@.len() as int)
                    };
                    if fr.len() <= 6 {
                        lemma_digits_value_bound(fr);
                        lemma_pow10_monotone((6 - fr.len()) as nat, 6);
                        assert(spec_digits_value(wh) * SCALE + spec_digits_value(fr)
                            * spec_pow10((6 - fr.len()) as nat) > u64::MAX)
                            by (nonlinear_arith)
                            requires
                                spec_digits_value(wh) > u64::MAX,
                                spec_digits_value(fr) >= 0,
                                spec_pow10((6 - fr.len()) as nat) >= 1,
                        ;
                    }
                }
            }
            return None;
        },
    };
    if point == n {
        // No fraction part.
        let value: u128 = (whole_value as u128) * (SCALE as u128);
        if value > u64::MAX as u128 {
            return None;
        }
        return Some(value as u64);
    }
    let frac_len: usize = n - point - 1;
    if frac_len == 0 || frac_len > 6 {
        return None;
    }
    let frac: Option<u64> = parse_digits(s, point + 1, n);
    proof {
        assert(s@.subrange(point + 1, n as int)
            =~= s@.subrange(spec_point_index(s@, 0) + 1, s@.len() as int));
    }
    let frac_value: u64 = match frac {
        Some(v) => v,
        None => {
            proof {
                // The fraction range is non-empty and short, so its
                // value fits easily; a parse failure means a non-digit.
                let fr = s@.subrange(point + 1, n as int);
                lemma_digits_value_bound(fr);
                lemma_pow10_monotone(fr.len() as nat, 6);
                lemma_pow10_six();
            }
            return None;
        },
    };
    let scale_pow: u64 = pow10_small((6 - frac_len) as u64);
    proof {
        lemma_digits_value_bound(s@.subrange(point + 1, n as int));
        lemma_pow10_monotone((6 - frac_len) as nat, 6);
        lemma_pow10_six();
        lemma_frac_fits(
            s@.subrange(point + 1, n as int),
            (6 - frac_len) as nat,
        );
    }
    proof {
        assert((frac_value as int) * (scale_pow as int)
            == spec_digits_value(s@.subrange(point + 1, n as int)) * spec_pow10(
            (6 - frac_len) as nat,
        ));
    }
    let value: u128 = (whole_value as u128) * (SCALE as u128) + (frac_value as u128) * (
    scale_pow as u128);
    if value > u64::MAX as u128 {
        return None;
    }
    Some(value as u64)
}

/// The value of up to six fraction digits, scaled, stays under one
/// whole unit.
proof fn lemma_frac_fits(frac: Seq<char>, pad: nat)
    requires
        1 <= frac.len() <= 6,
        pad == 6 - frac.len(),
    ensures
        spec_digits_value(frac) * spec_pow10(pad) < SCALE,
        0 <= spec_digits_value(frac),
{
    lemma_digits_value_bound(frac);
    lemma_pow10_monotone(pad, 6);
    assert(spec_digits_value(frac) < spec_pow10(frac.len() as nat));
    assert(spec_pow10(frac.len() as nat) * spec_pow10(pad) == spec_pow10(6)) by {
        lemma_pow10_add(frac.len() as nat, pad);
    }
    lemma_pow10_six();
    assert(spec_digits_value(frac) * spec_pow10(pad)
        < spec_pow10(frac.len() as nat) * spec_pow10(pad)) by (nonlinear_arith)
        requires
            0 <= spec_digits_value(frac) < spec_pow10(frac.len() as nat),
            1 <= spec_pow10(pad),
    ;
}

/// Powers of ten multiply by adding exponents.
proof fn lemma_pow10_add(a: nat, b: nat)
    ensures
        spec_pow10(a) * spec_pow10(b) == spec_pow10((a + b) as nat),
    decreases a,
{
    if a == 0 {
    } else {
        lemma_pow10_add((a - 1) as nat, b);
        assert(10 * spec_pow10((a - 1) as nat) * spec_pow10(b)
            == 10 * (spec_pow10((a - 1) as nat) * spec_pow10(b))) by (nonlinear_arith);
    }
}

/// A digit string's value is below ten to its length.
proof fn lemma_digits_value_bound(s: Seq<char>)
    ensures
        0 <= spec_digits_value(s) < spec_pow10(s.len() as nat),
    decreases s.len(),
{
    if s.len() == 0 {
    } else {
        lemma_digits_value_bound(s.drop_last());
        let prev = spec_digits_value(s.drop_last());
        let p = spec_pow10((s.len() - 1) as nat);
        let d = match spec_digit_value(s.last()) {
            Some(d) => d,
            None => 0int,
        };
        assert(0 <= d <= 9);
        assert(prev * 10 + d < 10 * p) by (nonlinear_arith)
            requires
                0 <= prev < p,
                0 <= d <= 9,
        ;
        assert(prev * 10 + d >= 0) by (nonlinear_arith)
            requires
                0 <= prev,
                0 <= d,
        ;
    }
}

/// Parse the digit run `s[from..to]` into a value; `None` when the
/// range is empty, holds a non-digit, or overflows 64 bits.
fn parse_digits(s: &str, from: usize, to: usize) -> (r: Option<u64>)
    requires
        from <= to <= s@.len(),
    ensures
        ({
            let range = s@.subrange(from as int, to as int);
            match r {
                Some(v) => range.len() > 0 && spec_all_digits(range) && v == spec_digits_value(
                    range,
                ) && spec_digits_value(range) <= u64::MAX,
                None => range.len() == 0 || !spec_all_digits(range) || spec_digits_value(range)
                    > u64::MAX,
            }
        }),
{
    if from == to {
        proof {
            assert(s@.subrange(from as int, to as int).len() == 0);
        }
        return None;
    }
    let mut acc: u64 = 0;
    let mut i: usize = from;
    while i < to
        invariant
            from <= i <= to <= s@.len(),
            spec_all_digits(s@.subrange(from as int, i as int)),
            acc == spec_digits_value(s@.subrange(from as int, i as int)),
        decreases to - i,
    {
        let ghost prefix = s@.subrange(from as int, i as int);
        let c: char = s.get_char(i);
        let d: u64 = match digit_value(c) {
            Some(d) => d,
            None => {
                proof {
                    let range = s@.subrange(from as int, to as int);
                    assert(range[i - from] == s@[i as int]);
                }
                return None;
            },
        };
        if acc > (u64::MAX - d) / 10 {
            proof {
                let range = s@.subrange(from as int, to as int);
                let next = s@.subrange(from as int, i + 1);
                assert(next.drop_last() =~= prefix);
                assert(next.last() == s@[i as int]);
                lemma_digits_prefix_monotone(range, (i + 1 - from) as int);
                assert(next =~= range.subrange(0, i + 1 - from));
                assert(10 * (acc as int) + d > u64::MAX) by (nonlinear_arith)
                    requires
                        acc > (u64::MAX - d) / 10,
                        0 <= d <= 9,
                ;
            }
            return None;
        }
        proof {
            let next = s@.subrange(from as int, i + 1);
            assert(next.drop_last() =~= prefix);
            assert(next.last() == s@[i as int]);
            assert(10 * (acc as int) + d <= u64::MAX) by (nonlinear_arith)
                requires
                    acc <= (u64::MAX - d) / 10,
                    0 <= d <= 9,
            ;
        }
        acc = 10 * acc + d;
        i = i + 1;
    }
    proof {
        assert(s@.subrange(from as int, to as int) =~= s@.subrange(from as int, i as int));
    }
    Some(acc)
}

/// A digit string's value never falls when digits are appended: any
/// prefix denotes at most the whole string's value.
pub proof fn lemma_digits_prefix_monotone(s: Seq<char>, k: int)
    requires
        0 <= k <= s.len(),
    ensures
        spec_digits_value(s.subrange(0, k)) <= spec_digits_value(s) || !spec_all_digits(s),
    decreases s.len() - k,
{
    if k == s.len() {
        assert(s.subrange(0, k) =~= s);
    } else if spec_all_digits(s) {
        lemma_digits_prefix_monotone(s, k + 1);
        let shorter = s.subrange(0, k);
        let longer = s.subrange(0, k + 1);
        assert(longer.drop_last() =~= shorter);
        lemma_digits_value_bound(shorter);
        let d = match spec_digit_value(longer.last()) {
            Some(d) => d,
            None => 0int,
        };
        assert(longer.last() == s[k]);
        assert(spec_digit_value(s[k]) is Some);
        assert(spec_digits_value(shorter) * 10 + d >= spec_digits_value(shorter))
            by (nonlinear_arith)
            requires
                0 <= spec_digits_value(shorter),
                0 <= d,
        ;
    }
}

/// The numeric value of one decimal digit character.
fn digit_value(c: char) -> (r: Option<u64>)
    ensures
        r == match spec_digit_value(c) {
            Some(d) => Some(d as u64),
            None => None::<u64>,
        },
{
    if c == '0' {
        Some(0)
    } else if c == '1' {
        Some(1)
    } else if c == '2' {
        Some(2)
    } else if c == '3' {
        Some(3)
    } else if c == '4' {
        Some(4)
    } else if c == '5' {
        Some(5)
    } else if c == '6' {
        Some(6)
    } else if c == '7' {
        Some(7)
    } else if c == '8' {
        Some(8)
    } else if c == '9' {
        Some(9)
    } else {
        None
    }
}

/// The numeric value of one decimal digit character, or none.
pub open spec fn spec_digit_value(c: char) -> Option<int> {
    if c == '0' {
        Some(0int)
    } else if c == '1' {
        Some(1int)
    } else if c == '2' {
        Some(2int)
    } else if c == '3' {
        Some(3int)
    } else if c == '4' {
        Some(4int)
    } else if c == '5' {
        Some(5int)
    } else if c == '6' {
        Some(6int)
    } else if c == '7' {
        Some(7int)
    } else if c == '8' {
        Some(8int)
    } else if c == '9' {
        Some(9int)
    } else {
        None
    }
}

/// Whether every character of `s` is a decimal digit.
pub open spec fn spec_all_digits(s: Seq<char>) -> bool {
    forall|i: int| 0 <= i < s.len() ==> #[trigger] spec_digit_value(s[i]) is Some
}

/// The integer a digit string denotes, most significant digit first.
pub open spec fn spec_digits_value(s: Seq<char>) -> int
    decreases s.len(),
{
    if s.len() == 0 {
        0
    } else {
        spec_digits_value(s.drop_last()) * 10 + match spec_digit_value(s.last()) {
            Some(d) => d,
            None => 0,
        }
    }
}

/// The character of a decimal digit reads back as that digit.
pub proof fn lemma_digit_char_value(d: int)
    requires
        0 <= d <= 9,
    ensures
        spec_digit_value(spec_digit_char(d)) == Some(d),
{
}

/// The decimal text of an unsigned integer is all digits, non-empty,
/// and denotes the integer itself.
pub proof fn lemma_u64_chars_decode(v: int)
    requires
        v >= 0,
    ensures
        spec_u64_chars(v).len() >= 1,
        spec_all_digits(spec_u64_chars(v)),
        spec_digits_value(spec_u64_chars(v)) == v,
    decreases v,
{
    if v < 10 {
        lemma_digit_char_value(v);
        let whole = spec_u64_chars(v);
        assert(whole =~= seq![spec_digit_char(v)]);
        assert(whole.drop_last() =~= Seq::<char>::empty());
        assert(whole.last() == spec_digit_char(v));
        assert(whole[0] == spec_digit_char(v));
        assert(spec_digits_value(whole)
            == spec_digits_value(whole.drop_last()) * 10 + v);
        assert(spec_digits_value(whole.drop_last()) == 0);
    } else {
        lemma_u64_chars_decode(v / 10);
        lemma_digit_char_value(v % 10);
        let head = spec_u64_chars(v / 10);
        let whole = spec_u64_chars(v);
        assert(whole =~= head.push(spec_digit_char(v % 10)));
        assert(whole.drop_last() =~= head);
        assert(whole.last() == spec_digit_char(v % 10));
        assert forall|m: int| 0 <= m < whole.len() implies
            spec_digit_value(#[trigger] whole[m]) is Some by {
            if m < head.len() {
                assert(whole[m] == head[m]);
            }
        }
        assert((v / 10) * 10 + v % 10 == v) by (nonlinear_arith);
    }
}

} // verus!
