use vstd::prelude::*;

verus! {

/// The absolute value of `x`.
pub open spec fn magnitude(x: int) -> int {
    if x >= 0 { x } else { -x }
}

/// `n / d` rounded to the nearest integer, halves rounded away from zero.
pub open spec fn round_half_away(n: int, d: int) -> int
    recommends d > 0,
{
    if n >= 0 {
        (2 * n + d) / (2 * d)
    } else {
        -((-2 * n + d) / (2 * d))
    }
}

/// `a / b` with the quotient truncated toward zero.
pub open spec fn trunc_div(a: int, b: int) -> int
    recommends b != 0,
{
    if (a >= 0) == (b > 0) {
        magnitude(a) / magnitude(b)
    } else {
        -(magnitude(a) / magnitude(b))
    }
}

/// Hundredths of a percent in a whole: a risk of 100% is `10000`.
pub const FULL_RISK: i128 = 10000;

/// Why a share count could not be given.
#[derive(Clone, Copy, Debug, PartialEq, Eq, Structural)]
pub enum SizingError {
    /// The price equals the stop-loss, so each unit risks nothing.
    DivisionByZero,
    /// The equity at risk and the risk per unit are non-zero and of opposite
    /// signs, so the ratio of the two is negative.
    NegativeShares,
    /// The count does not fit in a `u32`.
    TooManyShares,
}

impl SizingError {
    /// A one-line diagnostic for this error.
    pub fn message(&self) -> (r: String)
        ensures
            r@ == self.spec_message(),
    {
        match self {
            SizingError::DivisionByZero => String::from_str(
                "Division by zero: the price equals the stop-loss",
            ),
            SizingError::NegativeShares => String::from_str(
                "The share count would be negative: check the stop-loss",
            ),
            SizingError::TooManyShares => String::from_str(
                "The share count is too large",
            ),
        }
    }

    pub open spec fn spec_message(&self) -> Seq<char> {
        match self {
            SizingError::DivisionByZero => "Division by zero: the price equals the stop-loss"@,
            SizingError::NegativeShares => "The share count would be negative: check the stop-loss"@,
            SizingError::TooManyShares => "The share count is too large"@,
        }
    }
}

/// The inputs of a sizing: account equity, entry price and stop-loss, in cents.
#[derive(Clone, Copy, Debug, PartialEq, Eq, Structural)]
pub struct TradeSize {
    pub account_equity: i64,
    pub price: i64,
    pub stop_loss: i64,
}

impl TradeSize {
    /// Holds the three amounts as given; none of them is checked.
    pub fn new(account_equity: i64, price: i64, stop_loss: i64) -> (r: TradeSize)
        ensures
            r.account_equity == account_equity,
            r.price == price,
            r.stop_loss == stop_loss,
    {
        TradeSize { account_equity, price, stop_loss }
    }

    /// Price minus stop-loss, in cents.
    pub open spec fn spec_per_unit_risk(self) -> int {
        self.price - self.stop_loss
    }

    /// The equity at risk, in cents, for `risk` hundredths of a percent,
    /// rounded to the nearest cent.
    pub open spec fn spec_risk_equity(self, risk: int) -> int {
        round_half_away(self.account_equity * risk, FULL_RISK as int)
    }

    /// The number of units whose combined risk is the equity at risk,
    /// truncated toward zero.
    pub open spec fn share_quotient(self, risk: int) -> int {
        trunc_div(self.spec_risk_equity(risk), self.spec_per_unit_risk())
    }

    /// The equity at risk and the per-unit risk are non-zero and of opposite
    /// signs, so their ratio is negative.
    pub open spec fn opposite_signs(self, risk: int) -> bool {
        (self.spec_risk_equity(risk) > 0 && self.spec_per_unit_risk() < 0) || (
        self.spec_risk_equity(risk) < 0 && self.spec_per_unit_risk() > 0)
    }

    pub open spec fn spec_num_shares(self, risk: int) -> Result<u32, SizingError> {
        if self.spec_per_unit_risk() == 0 {
            Err(SizingError::DivisionByZero)
        } else if self.opposite_signs(risk) {
            Err(SizingError::NegativeShares)
        } else if self.share_quotient(risk) > u32::MAX {
            Err(SizingError::TooManyShares)
        } else {
            Ok(self.share_quotient(risk) as u32)
        }
    }

    /// The loss per unit if the stop-loss is hit: price minus stop-loss.
    /// It is negative when the stop-loss lies above the price.
    pub fn per_unit_risk(&self) -> (r: i128)
        ensures
            r == self.spec_per_unit_risk(),
    {
        self.price as i128 - self.stop_loss as i128
    }

    /// The equity put at risk by `risk` hundredths of a percent.
    pub fn risk_equity(&self, risk: u32) -> (r: i128)
        ensures
            r == self.spec_risk_equity(risk as int),
            magnitude(r as int) <= magnitude(self.account_equity as int) * risk,
    {
        proof {
            let e = self.account_equity as int;
            let ri = risk as int;
            assert(-0x8000_0000_0000_0000_0000_0000 <= e * ri <= 0x8000_0000_0000_0000_0000_0000)
                by (nonlinear_arith)
                requires
                    -0x8000_0000_0000_0000 <= e <= 0x8000_0000_0000_0000,
                    0 <= ri <= 0xffff_ffff,
            ;
            assert(magnitude(e * ri) == magnitude(e) * ri) by (nonlinear_arith)
                requires
                    ri >= 0,
            ;
        }
        let n: i128 = self.account_equity as i128 * risk as i128;
        if n >= 0 {
            let r = (2 * n + FULL_RISK) / (2 * FULL_RISK);
            proof {
                lemma_round_within(n as int);
            }
            r
        } else {
            let r = -((-2 * n + FULL_RISK) / (2 * FULL_RISK));
            proof {
                lemma_round_within(-(n as int));
            }
            r
        }
    }

    /// The share count for `risk` hundredths of a percent, or why there is none.
    pub fn num_shares(&self, risk: u32) -> (r: Result<u32, SizingError>)
        ensures
            r == self.spec_num_shares(risk as int),
    {
        let unit = self.per_unit_risk();
        let equity = self.risk_equity(risk);
        if unit == 0 {
            return Err(SizingError::DivisionByZero);
        }
        proof {
            let e = self.account_equity as int;
            assert(magnitude(e) * (risk as int) <= 0x8000_0000_0000_0000 * 0xffff_ffff)
                by (nonlinear_arith)
                requires
                    0 <= magnitude(e) <= 0x8000_0000_0000_0000,
                    0 <= risk <= 0xffff_ffff,
            ;
        }
        if (equity > 0 && unit < 0) || (equity < 0 && unit > 0) {
            return Err(SizingError::NegativeShares);
        }
        let e_mag: i128 = if equity >= 0 { equity } else { -equity };
        let u_mag: i128 = if unit >= 0 { unit } else { -unit };
        let q = e_mag / u_mag;
        proof {
            lemma_quotient_nonneg(e_mag as int, u_mag as int);
            if equity == 0 {
                assert(0int / (u_mag as int) == 0) by (nonlinear_arith)
                    requires
                        u_mag > 0,
                ;
            }
        }
        if q > u32::MAX as i128 {
            Err(SizingError::TooManyShares)
        } else {
            Ok(q as u32)
        }
    }
}

/// Rounding `n / FULL_RISK` for `n >= 0` gives a value no larger than `n`
/// and within half a unit of the exact quotient.
proof fn lemma_round_within(n: int)
    requires
        n >= 0,
    ensures
        0 <= (2 * n + FULL_RISK) / (2 * FULL_RISK) <= n,
        magnitude(((2 * n + FULL_RISK) / (2 * FULL_RISK)) * FULL_RISK - n) <= FULL_RISK / 2,
{
    let d = 2 * FULL_RISK as int;
    let q = (2 * n + FULL_RISK) / d;
    vstd::arithmetic::div_mod::lemma_fundamental_div_mod(2 * n + FULL_RISK, d);
    vstd::arithmetic::div_mod::lemma_mod_bound(2 * n + FULL_RISK, d);
    assert(0 <= q <= n) by (nonlinear_arith)
        requires
            n >= 0,
            d == 20000,
            2 * n + 10000 == d * q + (2 * n + 10000) % d,
            0 <= (2 * n + 10000) % d < d,
    ;
}

/// The equity at risk is the account equity times the risk percentage over
/// one hundred, to the nearest cent: in hundredths of a percent, the rounded
/// amount times `FULL_RISK` is within half of `FULL_RISK` of equity times risk.
pub proof fn lemma_risk_equity_exact_to_the_cent(ts: TradeSize, risk: u32)
    ensures
        magnitude(ts.spec_risk_equity(risk as int) * FULL_RISK - ts.account_equity * risk) <= FULL_RISK / 2,
{
    let n = ts.account_equity * risk;
    if n >= 0 {
        lemma_round_within(n);
    } else {
        lemma_round_within(-n);
    }
}

proof fn lemma_round_monotone(n1: int, n2: int)
    requires
        n1 <= n2,
    ensures
        round_half_away(n1, FULL_RISK as int) <= round_half_away(n2, FULL_RISK as int),
{
    let d = 2 * FULL_RISK as int;
    if n1 >= 0 {
        vstd::arithmetic::div_mod::lemma_div_is_ordered(2 * n1 + FULL_RISK, 2 * n2 + FULL_RISK, d);
    } else if n2 < 0 {
        vstd::arithmetic::div_mod::lemma_div_is_ordered(-2 * n2 + FULL_RISK, -2 * n1 + FULL_RISK, d);
    } else {
        lemma_round_within(n2);
        lemma_round_within(-n1);
    }
}

proof fn lemma_round_sign(n: int)
    ensures
        n >= 0 ==> round_half_away(n, FULL_RISK as int) >= 0,
        n <= 0 ==> round_half_away(n, FULL_RISK as int) <= 0,
{
    if n >= 0 {
        lemma_round_within(n);
    } else {
        lemma_round_within(-n);
    }
}

proof fn lemma_quotient_nonneg(a: int, b: int)
    requires
        a >= 0,
        b > 0,
    ensures
        a / b >= 0,
{
    vstd::arithmetic::div_mod::lemma_div_pos_is_pos(a, b);
}

proof fn lemma_trunc_div_ordered(a1: int, a2: int, b: int)
    requires
        a1 <= a2,
        b != 0,
    ensures
        b > 0 ==> trunc_div(a1, b) <= trunc_div(a2, b),
        b < 0 ==> trunc_div(a1, b) >= trunc_div(a2, b),
        b > 0 && a2 <= 0 ==> trunc_div(a2, b) <= 0,
        b < 0 && a1 >= 0 ==> trunc_div(a1, b) <= 0,
{
    let m = magnitude(b);
    lemma_quotient_nonneg(magnitude(a1), m);
    lemma_quotient_nonneg(magnitude(a2), m);
    if a1 >= 0 {
        vstd::arithmetic::div_mod::lemma_div_is_ordered(a1, a2, m);
    } else if a2 < 0 {
        vstd::arithmetic::div_mod::lemma_div_is_ordered(-a2, -a1, m);
    }
}

/// With equity, price and stop-loss fixed, a larger risk percentage never
/// gives fewer shares.
pub proof fn lemma_shares_monotone(ts: TradeSize, low: u32, high: u32)
    requires
        low <= high,
        ts.spec_num_shares(low as int) is Ok,
        ts.spec_num_shares(high as int) is Ok,
    ensures
        ts.spec_num_shares(low as int)->Ok_0 <= ts.spec_num_shares(high as int)->Ok_0,
{
    let e = ts.account_equity as int;
    let u = ts.spec_per_unit_risk();
    let n1 = e * low;
    let n2 = e * high;
    let r1 = ts.spec_risk_equity(low as int);
    let r2 = ts.spec_risk_equity(high as int);
    lemma_round_sign(n1);
    lemma_round_sign(n2);
    if e >= 0 {
        assert(0 <= n1 <= n2) by (nonlinear_arith)
            requires
                e >= 0,
                0 <= low <= high,
                n1 == e * low,
                n2 == e * high,
        ;
        lemma_round_monotone(n1, n2);
        lemma_trunc_div_ordered(r1, r2, u);
    } else {
        assert(n2 <= n1 <= 0) by (nonlinear_arith)
            requires
                e < 0,
                0 <= low <= high,
                n1 == e * low,
                n2 == e * high,
        ;
        lemma_round_monotone(n2, n1);
        lemma_trunc_div_ordered(r2, r1, u);
    }
}

} // verus!
