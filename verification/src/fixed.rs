//! Saturating signed fixed-point arithmetic.
//!
//! A value represents the real number `raw / FX_SCALE`. Every operation
//! rounds toward zero and clamps its result to `[-FX_SAT, FX_SAT]`, so the
//! operations are total and their exact integer behaviour is stated by the
//! `spec_fx_*` functions.

use vstd::prelude::*;

verus! {

/// Raw steps per unit: a sample of value one is carried as `FX_SCALE`.
pub const FX_SCALE: i64 = 65536;

/// Saturation bound (raw steps) of every arithmetic result: 2^40 - 1.
pub const FX_SAT: i64 = 1099511627775;

pub open spec fn fx_abs(x: int) -> int {
    if x >= 0 {
        x
    } else {
        -x
    }
}

/// Integer division truncated toward zero (the rounding used throughout).
pub open spec fn fx_tdiv(n: int, d: int) -> int {
    if (n >= 0) == (d >= 0) {
        fx_abs(n) / fx_abs(d)
    } else {
        -(fx_abs(n) / fx_abs(d))
    }
}

/// Clamp to the saturation range.
pub open spec fn fx_clip(x: int) -> int {
    if x > FX_SAT {
        FX_SAT as int
    } else if x < -(FX_SAT as int) {
        -(FX_SAT as int)
    } else {
        x
    }
}

/// The mathematical contents of a block of raw fixed-point samples.
pub open spec fn fx_ints(s: Seq<i64>) -> Seq<int> {
    s.map(|i: int, v: i64| v as int)
}

pub open spec fn spec_fx_add(a: int, b: int) -> int {
    fx_clip(a + b)
}

pub open spec fn spec_fx_sub(a: int, b: int) -> int {
    fx_clip(a - b)
}

pub open spec fn spec_fx_mul(a: int, b: int) -> int {
    fx_clip(fx_tdiv(a * b, FX_SCALE as int))
}

pub open spec fn spec_fx_div(a: int, b: int) -> int {
    fx_clip(fx_tdiv(a * (FX_SCALE as int), b))
}

/// The absolute value of a product is the product of the absolute values,
/// and the sign of the product follows the signs of the factors.
pub proof fn lemma_abs_mul(a: int, b: int)
    ensures
        fx_abs(a * b) == fx_abs(a) * fx_abs(b),
        ((a >= 0) == (b >= 0)) ==> a * b >= 0,
        ((a >= 0) != (b >= 0)) ==> a * b <= 0,
{
    if a >= 0 && b >= 0 {
        assert(a * b >= 0) by (nonlinear_arith)
            requires
                a >= 0,
                b >= 0,
        ;
    } else if a < 0 && b < 0 {
        assert(a * b >= 0) by (nonlinear_arith)
            requires
                a < 0,
                b < 0,
        ;
        assert((-a) * (-b) == a * b) by (nonlinear_arith);
    } else if a >= 0 {
        assert(a * b <= 0) by (nonlinear_arith)
            requires
                a >= 0,
                b < 0,
        ;
        assert(a * (-b) == -(a * b)) by (nonlinear_arith);
    } else {
        assert(a * b <= 0) by (nonlinear_arith)
            requires
                a < 0,
                b >= 0,
        ;
        assert((-a) * b == -(a * b)) by (nonlinear_arith);
    }
}

/// Saturating fixed-point addition.
pub fn fx_add(a: i64, b: i64) -> (r: i64)
    ensures
        r as int == spec_fx_add(a as int, b as int),
{
    let s: i128 = a as i128 + b as i128;
    if s > FX_SAT as i128 {
        FX_SAT
    } else if s < -(FX_SAT as i128) {
        -FX_SAT
    } else {
        s as i64
    }
}

/// Saturating fixed-point subtraction.
pub fn fx_sub(a: i64, b: i64) -> (r: i64)
    ensures
        r as int == spec_fx_sub(a as int, b as int),
{
    let s: i128 = a as i128 - b as i128;
    if s > FX_SAT as i128 {
        FX_SAT
    } else if s < -(FX_SAT as i128) {
        -FX_SAT
    } else {
        s as i64
    }
}

/// Saturating fixed-point multiplication: `(a * b) / FX_SCALE`, truncated
/// toward zero and clamped.
pub fn fx_mul(a: i64, b: i64) -> (r: i64)
    ensures
        r as int == spec_fx_mul(a as int, b as int),
{
    let ma: u128 = if a >= 0 {
        a as u128
    } else {
        (-(a as i128)) as u128
    };
    let mb: u128 = if b >= 0 {
        b as u128
    } else {
        (-(b as i128)) as u128
    };
    assert(ma == fx_abs(a as int) && mb == fx_abs(b as int));
    assert(ma * mb <= 0x40000000000000000000000000000000) by (nonlinear_arith)
        requires
            ma <= 0x8000000000000000,
            mb <= 0x8000000000000000,
    ;
    let p: u128 = ma * mb;
    let q: u128 = p / 65536u128;
    proof {
        lemma_abs_mul(a as int, b as int);
        assert(p == fx_abs((a as int) * (b as int)));
    }
    let neg: bool = (a < 0) != (b < 0);
    if neg {
        if q > FX_SAT as u128 {
            -FX_SAT
        } else {
            let qi: i64 = q as i64;
            -qi
        }
    } else {
        if q > FX_SAT as u128 {
            FX_SAT
        } else {
            q as i64
        }
    }
}

/// Saturating fixed-point division: `(a * FX_SCALE) / b`, truncated toward
/// zero and clamped.
pub fn fx_div(a: i64, b: i64) -> (r: i64)
    requires
        b != 0,
    ensures
        r as int == spec_fx_div(a as int, b as int),
{
    let ma0: u128 = if a >= 0 {
        a as u128
    } else {
        (-(a as i128)) as u128
    };
    let mb: u128 = if b >= 0 {
        b as u128
    } else {
        (-(b as i128)) as u128
    };
    assert(ma0 == fx_abs(a as int) && mb == fx_abs(b as int));
    assert(ma0 * 65536 <= 0x80000000000000000000);
    let man: u128 = ma0 * 65536u128;
    let q: u128 = man / mb;
    proof {
        let ni = (a as int) * (FX_SCALE as int);
        assert(man == fx_abs(ni));
        assert((a < 0) ==> ni < 0);
        assert((a >= 0) ==> ni >= 0);
        assert(q == fx_abs(ni) / fx_abs(b as int));
    }
    let neg: bool = (a < 0) != (b < 0);
    if neg {
        if q > FX_SAT as u128 {
            -FX_SAT
        } else {
            let qi: i64 = q as i64;
            -qi
        }
    } else {
        if q > FX_SAT as u128 {
            FX_SAT
        } else {
            q as i64
        }
    }
}

} // verus!
