//! Integer arithmetic of the language on `i64`, with every result that does
//! not fit reported instead of wrapped.
use vstd::prelude::*;

verus! {

pub open spec fn fits_i64(x: int) -> bool {
    i64::MIN <= x <= i64::MAX
}

pub open spec fn abs(x: int) -> int {
    if x < 0 {
        -x
    } else {
        x
    }
}

/// Division rounding toward zero.
pub open spec fn trunc_div(x: int, y: int) -> int {
    let q = abs(x) / abs(y);
    if (x < 0) == (y < 0) {
        q
    } else {
        -q
    }
}

/// The remainder of division rounding toward zero; it has the sign of `x`.
pub open spec fn trunc_rem(x: int, y: int) -> int {
    x - y * trunc_div(x, y)
}

pub open spec fn int_pow(x: int, n: nat) -> int
    decreases n,
{
    if n == 0 {
        1
    } else {
        x * int_pow(x, (n - 1) as nat)
    }
}

pub proof fn lemma_pow_one(n: nat)
    ensures
        int_pow(1, n) == 1,
    decreases n,
{
    if n > 0 {
        lemma_pow_one((n - 1) as nat);
    }
}

pub proof fn lemma_pow_minus_one(n: nat)
    ensures
        int_pow(-1, n) == if n % 2 == 0 {
            1int
        } else {
            -1int
        },
    decreases n,
{
    if n > 0 {
        lemma_pow_minus_one((n - 1) as nat);
    }
}

/// For a base of magnitude at least one, the magnitude of its powers does not
/// decrease.
pub proof fn lemma_pow_abs_grows(x: int, n: nat, m: nat)
    requires
        abs(x) >= 1,
        n <= m,
    ensures
        abs(int_pow(x, n)) <= abs(int_pow(x, m)),
    decreases m - n,
{
    if n < m {
        lemma_pow_abs_grows(x, n, (m - 1) as nat);
        let p = int_pow(x, (m - 1) as nat);
        assert(abs(x * p) == abs(x) * abs(p)) by (nonlinear_arith);
        assert(abs(x) * abs(p) >= abs(p)) by (nonlinear_arith)
            requires
                abs(x) >= 1,
                abs(p) >= 0,
        ;
    }
}

pub fn checked_add(x: i64, y: i64) -> (r: Option<i64>)
    ensures
        r == (if fits_i64(x + y) {
            Some((x + y) as i64)
        } else {
            None
        }),
{
    let s = x as i128 + y as i128;
    if s < i64::MIN as i128 || s > i64::MAX as i128 {
        None
    } else {
        Some(s as i64)
    }
}

pub fn checked_sub(x: i64, y: i64) -> (r: Option<i64>)
    ensures
        r == (if fits_i64(x - y) {
            Some((x - y) as i64)
        } else {
            None
        }),
{
    let s = x as i128 - y as i128;
    if s < i64::MIN as i128 || s > i64::MAX as i128 {
        None
    } else {
        Some(s as i64)
    }
}

pub fn checked_mul(x: i64, y: i64) -> (r: Option<i64>)
    ensures
        r == (if fits_i64(x * y) {
            Some((x * y) as i64)
        } else {
            None
        }),
{
    assert(i64::MIN * i64::MAX <= x * y <= i64::MIN * i64::MIN) by (nonlinear_arith)
        requires
            i64::MIN <= x <= i64::MAX,
            i64::MIN <= y <= i64::MAX,
    ;
    let s = x as i128 * y as i128;
    if s < i64::MIN as i128 || s > i64::MAX as i128 {
        None
    } else {
        Some(s as i64)
    }
}

fn magnitude(x: i64) -> (r: u64)
    ensures
        r == abs(x as int),
{
    if x < 0 {
        (-(x as i128)) as u64
    } else {
        x as u64
    }
}

/// Division rounding toward zero; `None` where the quotient does not fit
/// (`i64::MIN / -1`).
pub fn checked_div(x: i64, y: i64) -> (r: Option<i64>)
    requires
        y != 0,
    ensures
        r == (if fits_i64(trunc_div(x as int, y as int)) {
            Some(trunc_div(x as int, y as int) as i64)
        } else {
            None
        }),
{
    let q = magnitude(x) / magnitude(y);
    assert(q <= abs(x as int)) by (nonlinear_arith)
        requires
            q == abs(x as int) / abs(y as int),
            abs(y as int) >= 1,
            abs(x as int) >= 0,
    ;
    if (x < 0) == (y < 0) {
        if q > i64::MAX as u64 {
            None
        } else {
            Some(q as i64)
        }
    } else {
        Some(-(q as i128) as i64)
    }
}

/// The remainder of division rounding toward zero. It always fits: its
/// magnitude is below that of `y`.
pub fn remainder(x: i64, y: i64) -> (r: i64)
    requires
        y != 0,
    ensures
        r == trunc_rem(x as int, y as int),
{
    let ax = magnitude(x);
    let ay = magnitude(y);
    let m = ax % ay;
    let q = ax / ay;
    assert(ax == ay * q + m && m < ay) by (nonlinear_arith)
        requires
            ay > 0,
            m == ax % ay,
            q == ax / ay,
    ;
    proof {
        let t = trunc_div(x as int, y as int);
        if (x < 0) == (y < 0) {
            assert(t == q);
            if x < 0 {
                assert(y * t == -(ay * q)) by (nonlinear_arith)
                    requires
                        y == -ay,
                        t == q,
                ;
            } else {
                assert(y * t == ay * q) by (nonlinear_arith)
                    requires
                        y == ay,
                        t == q,
                ;
            }
        } else {
            assert(t == -q);
            if x < 0 {
                assert(y * t == -(ay * q)) by (nonlinear_arith)
                    requires
                        y == ay,
                        t == -q,
                ;
            } else {
                assert(y * t == ay * q) by (nonlinear_arith)
                    requires
                        y == -ay,
                        t == -q,
                ;
            }
        }
    }
    if x < 0 {
        -(m as i128) as i64
    } else {
        m as i64
    }
}

/// `x` to the power `y`. A negative exponent has an integer result only for
/// the bases 0, 1 and -1 (0 stays 0, and -1 alternates by parity).
pub open spec fn power_model(x: int, y: int) -> Option<int> {
    if y >= 0 {
        Some(int_pow(x, y as nat))
    } else if x == 0 {
        Some(0)
    } else if x == 1 {
        Some(1)
    } else if x == -1 {
        Some(
            if y % 2 == 0 {
                1int
            } else {
                -1int
            },
        )
    } else {
        None
    }
}

/// `x` raised to the power `y`; `None` where `power_model` has no integer or
/// the result does not fit.
pub fn checked_pow(x: i64, y: i64) -> (r: Option<i64>)
    ensures
        r == (if power_model(x as int, y as int) is Some && fits_i64(
            power_model(x as int, y as int)->0,
        ) {
            Some(power_model(x as int, y as int)->0 as i64)
        } else {
            None
        }),
{
    if y < 0 {
        if x == 0 {
            return Some(0);
        } else if x == 1 {
            return Some(1);
        } else if x == -1 {
            let m = -(y as i128);
            assert((y as int) % 2 == 0 <==> m % 2 == 0) by (nonlinear_arith)
                requires
                    m == -y,
            ;
            if m % 2 == 0 {
                return Some(1);
            } else {
                return Some(-1);
            }
        }
        return None;
    }
    if x == 0 {
        if y == 0 {
            return Some(1);
        }
        assert(int_pow(0, y as nat) == 0 * int_pow(0, (y - 1) as nat));
        return Some(0);
    }
    if x == 1 {
        proof {
            lemma_pow_one(y as nat);
        }
        return Some(1);
    }
    if x == -1 {
        proof {
            lemma_pow_minus_one(y as nat);
        }
        if y % 2 == 0 {
            return Some(1);
        } else {
            return Some(-1);
        }
    }
    let mut acc: i64 = 1;
    let mut i: i64 = 0;
    while i < y
        invariant
            0 <= i <= y,
            abs(x as int) >= 2,
            acc as int == int_pow(x as int, i as nat),
        decreases y - i,
    {
        assert(i64::MIN * i64::MAX <= acc * x <= i64::MIN * i64::MIN) by (nonlinear_arith)
            requires
                i64::MIN <= x <= i64::MAX,
                i64::MIN <= acc <= i64::MAX,
        ;
        let next = acc as i128 * x as i128;
        assert(int_pow(x as int, (i + 1) as nat) == x * int_pow(x as int, i as nat));
        assert(next == x * acc) by (nonlinear_arith)
            requires
                next == acc * x,
        ;
        if next < i64::MIN as i128 || next > i64::MAX as i128 {
            proof {
                if i + 1 < y {
                    lemma_pow_abs_grows(x as int, (i + 2) as nat, y as nat);
                    assert(int_pow(x as int, (i + 2) as nat) == x * next);
                    assert(abs(x * next) >= 2 * abs(next as int)) by (nonlinear_arith)
                        requires
                            abs(x as int) >= 2,
                    ;
                }
            }
            return None;
        }
        acc = next as i64;
        i = i + 1;
    }
    Some(acc)
}

} // verus!
