use vstd::prelude::*;

use crate::errors::ErrorCode;
use crate::state::{Direction, QUOTE_DECIMALS};

verus! {

/// `10^n`.
pub open spec fn pow10(n: nat) -> int
    decreases n,
{
    if n == 0 {
        1
    } else {
        10 * pow10((n - 1) as nat)
    }
}

pub open spec fn fits_i64(x: int) -> bool {
    i64::MIN <= x <= i64::MAX
}

/// Division rounded toward zero, as Rust's `/` on signed integers (`d != 0`).
pub open spec fn quot(x: int, d: int) -> int {
    let q = (if x >= 0 { x } else { -x }) / (if d >= 0 { d } else { -d });
    if (x >= 0) == (d > 0) {
        q
    } else {
        -q
    }
}

/// `ceil(x / d)` for `d > 0`.
pub open spec fn ceil_div(x: int, d: int) -> int {
    -((-x) / d)
}

/// `floor(price * size / 10^decimals)`: the dollar value of `size` units at
/// `price`, both at the market's decimal scale.
pub open spec fn notional_value(price: int, size: int, decimals: u8) -> int {
    (price * size) / pow10(decimals as nat)
}

pub open spec fn sign_of(direction: Direction) -> int {
    match direction {
        Direction::Long => 1,
        Direction::Short => -1,
    }
}

/// Profit of a position of `size` units entered at `notional`, marked at
/// `price`.
pub open spec fn pnl_value(notional: int, price: int, size: int, decimals: u8, direction: Direction) -> int {
    (notional_value(price, size, decimals) - notional) * sign_of(direction)
}

/// Average price of a closed quantity: `(notional / size) * 10^decimals`,
/// the division rounded toward zero.
pub open spec fn average_price(notional: int, size: int, decimals: u8) -> int {
    quot(notional, size) * pow10(decimals as nat)
}

/// `floor(raw * 10^(QUOTE_DECIMALS - exponent))`: an oracle reading at the
/// library's fixed-point scale.
pub open spec fn scaled_price(raw: int, exponent: int) -> int {
    if exponent <= QUOTE_DECIMALS {
        raw * pow10((QUOTE_DECIMALS - exponent) as nat)
    } else {
        raw / pow10((exponent - QUOTE_DECIMALS) as nat)
    }
}

/// Margin that a new position of this notional must lock: `ceil(notional / leverage)`.
pub open spec fn required_margin_of(notional: int, leverage: int) -> int {
    ceil_div(notional, leverage)
}

/// Margin that a live position locks: `notional / leverage`, rounded toward zero.
pub open spec fn locked_margin_of(notional: int, leverage: int) -> int {
    quot(notional, leverage)
}

pub proof fn lemma_pow10_positive(n: nat)
    ensures
        pow10(n) >= 1,
    decreases n,
{
    if n > 0 {
        lemma_pow10_positive((n - 1) as nat);
    }
}

pub proof fn lemma_pow10_monotone(a: nat, b: nat)
    requires
        a <= b,
    ensures
        pow10(a) <= pow10(b),
    decreases b,
{
    lemma_pow10_positive(b);
    if a < b {
        lemma_pow10_monotone(a, (b - 1) as nat);
    }
}

proof fn lemma_pow10_38()
    ensures
        pow10(38) == 100000000000000000000000000000000000000int,
        pow10(18) == 1000000000000000000int,
        pow10(19) == 10000000000000000000int,
{
    reveal_with_fuel(pow10, 39);
}

/// `10^d` as an `i128`; `d <= 38` keeps it in range.
fn ten_pow(d: u32) -> (r: i128)
    requires
        d <= 38,
    ensures
        r == pow10(d as nat),
        r >= 1,
{
    proof {
        lemma_pow10_38();
    }
    let mut r: i128 = 1;
    let mut i: u32 = 0;
    while i < d
        invariant
            i <= d <= 38,
            r == pow10(i as nat),
            pow10(38) == 100000000000000000000000000000000000000int,
        decreases d - i,
    {
        proof {
            lemma_pow10_monotone((i + 1) as nat, 38);
            assert(pow10((i + 1) as nat) == 10 * pow10(i as nat));
            lemma_pow10_positive(i as nat);
            assert(r * 10 <= 100000000000000000000000000000000000000int);
        }
        r = r * 10;
        i = i + 1;
    }
    proof {
        lemma_pow10_positive(d as nat);
    }
    r
}

proof fn lemma_product_bound(a: i64, b: i64)
    ensures
        -0x4000_0000_0000_0000_0000_0000_0000_0000int <= (a as int) * (b as int)
            <= 0x4000_0000_0000_0000_0000_0000_0000_0000int,
{
    let x = a as int;
    let y = b as int;
    assert(-0x8000_0000_0000_0000int <= x <= 0x8000_0000_0000_0000int);
    assert(-0x8000_0000_0000_0000int <= y <= 0x8000_0000_0000_0000int);
    assert(-0x4000_0000_0000_0000_0000_0000_0000_0000int <= x * y
        <= 0x4000_0000_0000_0000_0000_0000_0000_0000int) by (nonlinear_arith)
        requires
            -0x8000_0000_0000_0000int <= x <= 0x8000_0000_0000_0000int,
            -0x8000_0000_0000_0000int <= y <= 0x8000_0000_0000_0000int,
    ;
}

/// Narrows an `i128` to an `i64`, refusing what does not fit.
fn narrow(x: i128) -> (r: Result<i64, ErrorCode>)
    ensures
        r == (if fits_i64(x as int) {
            Ok::<i64, ErrorCode>(x as i64)
        } else {
            Err::<i64, ErrorCode>(ErrorCode::MathOverflow)
        }),
{
    if x < i64::MIN as i128 || x > i64::MAX as i128 {
        Err(ErrorCode::MathOverflow)
    } else {
        Ok(x as i64)
    }
}

/// `price * size / 10^decimals`, rounded down, computed at double width.
pub fn calculate_notional(price_in_decimal: i64, size: i64, decimals: u8) -> (r: Result<i64, ErrorCode>)
    ensures
        r == (if decimals <= 38 && fits_i64(notional_value(price_in_decimal as int, size as int, decimals)) {
            Ok::<i64, ErrorCode>(notional_value(price_in_decimal as int, size as int, decimals) as i64)
        } else {
            Err::<i64, ErrorCode>(ErrorCode::MathOverflow)
        }),
{
    if decimals > 38 {
        return Err(ErrorCode::MathOverflow);
    }
    let scale = ten_pow(decimals as u32);
    proof {
        lemma_product_bound(price_in_decimal, size);
    }
    let product = (price_in_decimal as i128) * (size as i128);
    match product.checked_div_euclid(scale) {
        Some(notional) => narrow(notional),
        None => Err(ErrorCode::MathOverflow),
    }
}

pub fn dir_sign(direction: Direction) -> (r: i64)
    ensures
        r == sign_of(direction),
{
    match direction {
        Direction::Long => 1,
        Direction::Short => -1,
    }
}

/// `(price * size / 10^decimals - notional) * sign(direction)`, computed at
/// double width.
pub fn calculate_unrealized_pnl(
    notional: i64,
    current_price: i64,
    size: i64,
    decimals: u8,
    direction: Direction,
) -> (r: Result<i64, ErrorCode>)
    ensures
        r == (if decimals <= 38 && fits_i64(
            pnl_value(notional as int, current_price as int, size as int, decimals, direction),
        ) {
            Ok::<i64, ErrorCode>(
                pnl_value(notional as int, current_price as int, size as int, decimals, direction) as i64,
            )
        } else {
            Err::<i64, ErrorCode>(ErrorCode::MathOverflow)
        }),
{
    if decimals > 38 {
        return Err(ErrorCode::MathOverflow);
    }
    let scale = ten_pow(decimals as u32);
    proof {
        lemma_product_bound(current_price, size);
    }
    let product = (current_price as i128) * (size as i128);
    let value = match product.checked_div_euclid(scale) {
        Some(v) => v,
        None => {
            return Err(ErrorCode::MathOverflow);
        },
    };
    proof {
        let x = product as int;
        let m = scale as int;
        assert(x >= 0 ==> 0 <= x / m <= x) by (nonlinear_arith)
            requires m >= 1;
        assert(x < 0 ==> x <= x / m < 0) by (nonlinear_arith)
            requires m >= 1;
    }
    let diff = value - notional as i128;
    let pnl = match direction {
        Direction::Long => diff,
        Direction::Short => -diff,
    };
    narrow(pnl)
}

/// `(notional / size) * 10^decimals` with the division rounded toward zero.
pub fn calculate_price_from_notional_and_size(notional: i64, size: i64, decimals: u8) -> (r: Result<i64, ErrorCode>)
    ensures
        r == (if size != 0 && decimals <= 38 && fits_i64(average_price(notional as int, size as int, decimals)) {
            Ok::<i64, ErrorCode>(average_price(notional as int, size as int, decimals) as i64)
        } else {
            Err::<i64, ErrorCode>(ErrorCode::MathOverflow)
        }),
{
    if size == 0 || decimals > 38 {
        return Err(ErrorCode::MathOverflow);
    }
    let scale = ten_pow(decimals as u32);
    let n = notional as i128;
    let s = size as i128;
    let an: i128 = if n >= 0 { n } else { -n };
    let asz: i128 = if s >= 0 { s } else { -s };
    let q0 = an / asz;
    let q: i128 = if (n >= 0) == (s > 0) { q0 } else { -q0 };
    assert(q == quot(notional as int, size as int));
    proof {
        assert(0 <= q0 <= an) by (nonlinear_arith)
            requires q0 == an / asz, an >= 0, asz >= 1;
    }
    match q.checked_mul(scale) {
        Some(p) => narrow(p),
        None => Err(ErrorCode::MathOverflow),
    }
}

/// An oracle's `(price, exponent)` reading at the library's fixed-point scale,
/// rounded down.
pub fn scale_price(price: i64, exponent: i32) -> (r: Result<i64, ErrorCode>)
    ensures
        r == (if fits_i64(scaled_price(price as int, exponent as int)) {
            Ok::<i64, ErrorCode>(scaled_price(price as int, exponent as int) as i64)
        } else {
            Err::<i64, ErrorCode>(ErrorCode::MathOverflow)
        }),
{
    proof {
        lemma_pow10_38();
    }
    if exponent <= QUOTE_DECIMALS {
        let e: i64 = QUOTE_DECIMALS as i64 - exponent as i64;
        if price == 0 {
            assert(scaled_price(price as int, exponent as int) == 0);
            return Ok(0);
        }
        if e > 18 {
            proof {
                lemma_pow10_monotone(19, e as nat);
                let p = price as int;
                let m = pow10(e as nat);
                assert(m >= 10000000000000000000int);
                assert(p * m > i64::MAX || p * m < i64::MIN) by (nonlinear_arith)
                    requires p != 0, m >= 10000000000000000000int;
            }
            return Err(ErrorCode::MathOverflow);
        }
        proof {
            lemma_pow10_monotone(e as nat, 18);
            let p = price as int;
            let m = pow10(e as nat);
            lemma_pow10_positive(e as nat);
            assert(-0x4000_0000_0000_0000_0000_0000_0000_0000int <= p * m
                <= 0x4000_0000_0000_0000_0000_0000_0000_0000int) by (nonlinear_arith)
                requires
                    i64::MIN <= p <= i64::MAX,
                    1 <= m <= 1000000000000000000int,
            ;
        }
        let scale = ten_pow(e as u32);
        narrow(price as i128 * scale)
    } else {
        let e: i64 = exponent as i64 - QUOTE_DECIMALS as i64;
        if e > 18 {
            proof {
                lemma_pow10_monotone(19, e as nat);
                let p = price as int;
                let m = pow10(e as nat);
                assert(m > 0x8000_0000_0000_0000int);
                if p >= 0 {
                    assert(p / m == 0) by (nonlinear_arith)
                        requires 0 <= p < m;
                } else {
                    assert(p / m == -1) by (nonlinear_arith)
                        requires -m < p < 0;
                }
            }
            return if price >= 0 { Ok(0) } else { Ok(-1) };
        }
        let scale = ten_pow(e as u32);
        proof {
            let p = price as int;
            let m = scale as int;
            assert(p >= 0 ==> 0 <= p / m <= p) by (nonlinear_arith)
                requires m >= 1;
            assert(p < 0 ==> p <= p / m < 0) by (nonlinear_arith)
                requires m >= 1;
        }
        match (price as i128).checked_div_euclid(scale) {
            Some(q) => narrow(q),
            None => Err(ErrorCode::MathOverflow),
        }
    }
}

/// `ceil(notional / leverage)`; a zero leverage is refused.
pub fn required_margin(notional: i64, leverage: u8) -> (r: Result<i64, ErrorCode>)
    ensures
        r == (if leverage == 0 {
            Err::<i64, ErrorCode>(ErrorCode::MathOverflow)
        } else {
            Ok::<i64, ErrorCode>(required_margin_of(notional as int, leverage as int) as i64)
        }),
        leverage > 0 ==> fits_i64(required_margin_of(notional as int, leverage as int)),
{
    if leverage == 0 {
        return Err(ErrorCode::MathOverflow);
    }
    let n = -(notional as i128);
    let l = leverage as i128;
    proof {
        let x = n as int;
        let d = l as int;
        assert(x <= 0 ==> x <= x / d <= 0) by (nonlinear_arith)
            requires d >= 1;
        assert(x > 0 ==> 0 <= x / d <= x) by (nonlinear_arith)
            requires d >= 1;
    }
    match n.checked_div_euclid(l) {
        Some(q) => Ok((-q) as i64),
        None => Err(ErrorCode::MathOverflow),
    }
}

/// `notional / leverage`, rounded toward zero; a zero leverage is refused.
pub fn locked_margin(notional: i64, leverage: u8) -> (r: Result<i64, ErrorCode>)
    ensures
        r == (if leverage == 0 {
            Err::<i64, ErrorCode>(ErrorCode::MathOverflow)
        } else {
            Ok::<i64, ErrorCode>(locked_margin_of(notional as int, leverage as int) as i64)
        }),
        leverage > 0 ==> fits_i64(locked_margin_of(notional as int, leverage as int)),
{
    match notional.checked_div(leverage as i64) {
        Some(m) => Ok(m),
        None => Err(ErrorCode::MathOverflow),
    }
}

} // verus!
