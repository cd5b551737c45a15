//! Saturating and truncating integer arithmetic, stated over `int`.
use vstd::prelude::*;

verus! {

/// `a - b` clamped to the range of `i128`.
pub open spec fn saturating_sub_i128_spec(a: i128, b: i128) -> i128 {
    if a - b > i128::MAX {
        i128::MAX
    } else if a - b < i128::MIN {
        i128::MIN
    } else {
        (a - b) as i128
    }
}

pub fn saturating_sub_i128(a: i128, b: i128) -> (r: i128)
    ensures
        r == saturating_sub_i128_spec(a, b),
{
    match a.checked_sub(b) {
        Some(v) => v,
        None => if b > 0 {
            i128::MIN
        } else {
            i128::MAX
        },
    }
}

/// `a * b` clamped to the range of `i128`.
pub open spec fn saturating_mul_i128_spec(a: i128, b: i128) -> i128 {
    if a * b > i128::MAX {
        i128::MAX
    } else if a * b < i128::MIN {
        i128::MIN
    } else {
        (a * b) as i128
    }
}

pub fn saturating_mul_i128(a: i128, b: i128) -> (r: i128)
    ensures
        r == saturating_mul_i128_spec(a, b),
{
    match a.checked_mul(b) {
        Some(v) => v,
        None => if (a > 0) == (b > 0) {
            proof {
                if a > 0 {
                    assert(a * b > 0) by (nonlinear_arith)
                        requires
                            a > 0,
                            b > 0,
                    ;
                } else {
                    assert(a * b >= 0) by (nonlinear_arith)
                        requires
                            a <= 0,
                            b <= 0,
                    ;
                }
            }
            i128::MAX
        } else {
            proof {
                if a > 0 {
                    assert(a * b <= 0) by (nonlinear_arith)
                        requires
                            a > 0,
                            b <= 0,
                    ;
                } else {
                    assert(a * b <= 0) by (nonlinear_arith)
                        requires
                            a <= 0,
                            b > 0,
                    ;
                }
            }
            i128::MIN
        },
    }
}

/// `a + b` clamped to the range of `u64`.
pub open spec fn saturating_add_u64_spec(a: u64, b: u64) -> u64 {
    if a + b > u64::MAX {
        u64::MAX
    } else {
        (a + b) as u64
    }
}

/// `a + b` clamped to the range of `u64`.
pub fn saturating_add_u64(a: u64, b: u64) -> (r: u64)
    ensures
        r == saturating_add_u64_spec(a, b),
{
    a.saturating_add(b)
}

/// `a - b` clamped at zero.
pub open spec fn saturating_sub_u64_spec(a: u64, b: u64) -> u64 {
    if a < b {
        0
    } else {
        (a - b) as u64
    }
}

/// Integer division rounding toward zero, as Rust's `/` does.
pub open spec fn trunc_div(x: int, d: int) -> int {
    if x >= 0 {
        x / d
    } else {
        -((-x) / d)
    }
}

/// `x / d` for `d > 0`, rounding toward zero.
pub fn div_trunc_i128(x: i128, d: i128) -> (r: i128)
    requires
        d > 0,
    ensures
        r == trunc_div(x as int, d as int),
{
    match x.checked_div(d) {
        Some(q) => q,
        None => {
            proof {
                let xi = x as int;
                let di = d as int;
                if xi < 0 {
                    assert((-xi) / di <= -xi && (-xi) / di >= 0) by (nonlinear_arith)
                        requires
                            -xi > 0,
                            di > 0,
                    ;
                } else if xi > 0 {
                    assert(xi / di <= xi && xi / di >= 0) by (nonlinear_arith)
                        requires
                            xi > 0,
                            di > 0,
                    ;
                }
            }
            0
        },
    }
}

} // verus!
