//! Exact rational arithmetic on 128-bit numerators and denominators, and the
//! launcher's decimal rendering of results (six decimals, trailing zeros
//! dropped).

use vstd::arithmetic::div_mod::*;
use vstd::arithmetic::mul::*;
use vstd::arithmetic::power::pow;
use vstd::prelude::*;

verus! {

/// Largest magnitude a numerator or denominator may have.
pub const LIM: i128 = 170141183460469231731687303715884105727i128;

/// `x` fits in the symmetric 128-bit range `-LIM..=LIM`.
pub open spec fn fits(x: int) -> bool {
    -(LIM as int) <= x <= LIM as int
}

/// A rational number `num / den`; `den` is positive. The results of the
/// arithmetic below are reduced to lowest terms; parsed decimals keep their
/// power-of-ten denominator.
#[derive(Clone, Copy, Debug)]
pub struct Rat {
    pub num: i128,
    pub den: i128,
}

impl Rat {
    pub open spec fn wf(self) -> bool {
        self.den > 0 && fits(self.num as int) && fits(self.den as int)
    }

    pub open spec fn pair(self) -> (int, int) {
        (self.num as int, self.den as int)
    }
}

/// A well-formed pair: positive denominator, both parts in range.
pub open spec fn pair_wf(x: (int, int)) -> bool {
    x.1 > 0 && fits(x.0) && fits(x.1)
}

/// Two pairs denote the same rational number.
pub open spec fn same_value(x: (int, int), y: (int, int)) -> bool {
    x.0 * y.1 == y.0 * x.1
}

pub open spec fn abs(x: int) -> int {
    if x < 0 {
        -x
    } else {
        x
    }
}

/// Greatest common divisor (Euclid).
pub open spec fn gcd(a: nat, b: nat) -> nat
    decreases b,
{
    if b == 0 {
        a
    } else {
        gcd(b, a % b)
    }
}

/// `x` in lowest terms: both parts divided by their greatest common divisor.
pub open spec fn reduce(x: (int, int)) -> (int, int) {
    let g = gcd(abs(x.0) as nat, abs(x.1) as nat);
    if g == 0 {
        x
    } else {
        (x.0 / (g as int), x.1 / (g as int))
    }
}

/// The greatest common divisor divides both numbers, and is positive unless
/// both are zero.
pub proof fn lemma_gcd_divides(a: nat, b: nat)
    ensures
        (a == 0 && b == 0) || gcd(a, b) > 0,
        gcd(a, b) > 0 ==> a % gcd(a, b) == 0 && b % gcd(a, b) == 0,
    decreases b,
{
    if b > 0 {
        lemma_gcd_divides(b, a % b);
        let g: int = gcd(b, a % b) as int;
        let ai = a as int;
        let bi = b as int;
        let ri = ai % bi;
        lemma_fundamental_div_mod(ai, bi);
        lemma_fundamental_div_mod(bi, g);
        lemma_fundamental_div_mod(ri, g);
        let k = ai / bi;
        let bq = bi / g;
        let rq = ri / g;
        let m = k * bq + rq;
        assert(ai == m * g) by (nonlinear_arith)
            requires
                ai == bi * k + ri,
                bi == g * bq,
                ri == g * rq,
                m == k * bq + rq,
        ;
        lemma_mod_multiples_basic(m, g);
    }
}

/// Reducing keeps the value and well-formedness, and does not enlarge the
/// parts.
pub proof fn lemma_reduce(x: (int, int))
    requires
        pair_wf(x),
    ensures
        pair_wf(reduce(x)),
        same_value(x, reduce(x)),
        abs(reduce(x).0) <= abs(x.0),
        reduce(x).1 <= x.1,
        gcd(abs(x.0) as nat, x.1 as nat) > 0,
        reduce(x).0 == (if x.0 < 0 {
            -(abs(x.0) / (gcd(abs(x.0) as nat, x.1 as nat) as int))
        } else {
            abs(x.0) / (gcd(abs(x.0) as nat, x.1 as nat) as int)
        }),
        reduce(x).1 == x.1 / (gcd(abs(x.0) as nat, x.1 as nat) as int),
{
    let a = abs(x.0) as nat;
    let b = x.1 as nat;
    lemma_gcd_divides(a, b);
    let g = gcd(a, b) as int;
    assert(g > 0);
    lemma_fundamental_div_mod(a as int, g);
    lemma_fundamental_div_mod(b as int, g);
    let qa = a as int / g;
    let qb = b as int / g;
    assert(qb > 0) by (nonlinear_arith)
        requires
            b == g * qb,
            b > 0,
            g > 0,
    ;
    assert(qb <= b) by (nonlinear_arith)
        requires
            b == g * qb,
            qb > 0,
            g >= 1,
    ;
    assert(0 <= qa <= a) by (nonlinear_arith)
        requires
            a == g * qa,
            a >= 0,
            g >= 1,
    ;
    if x.0 >= 0 {
        assert(reduce(x) == (qa, qb));
        assert(x.0 * qb == qa * x.1) by (nonlinear_arith)
            requires
                x.0 == g * qa,
                x.1 == g * qb,
        ;
    } else {
        assert(x.0 == g * (-qa)) by (nonlinear_arith)
            requires
                -x.0 == g * qa,
        ;
        assert(x.0 == (-qa) * g + 0) by (nonlinear_arith)
            requires
                x.0 == g * (-qa),
        ;
        lemma_fundamental_div_mod_converse(x.0, g, -qa, 0);
        assert(x.0 / g == -qa);
        assert(reduce(x) == (-qa, qb));
        assert(x.0 * qb == (-qa) * x.1) by (nonlinear_arith)
            requires
                x.0 == g * (-qa),
                x.1 == g * qb,
        ;
    }
}

/// The rational operations compute what they are named for: a result, when
/// there is one, is well-formed and denotes the sum, difference, product or
/// quotient of the operands' values (cross-multiplied: `r = n / d` is stated
/// as `r.0 * d == n * r.1`).
pub proof fn lemma_rat_ops_values(x: (int, int), y: (int, int))
    requires
        pair_wf(x),
        pair_wf(y),
    ensures
        rat_add(x, y) matches Some(r) ==> pair_wf(r) && r.0 * (x.1 * y.1) == (x.0 * y.1 + y.0 * x.1)
            * r.1,
        rat_sub(x, y) matches Some(r) ==> pair_wf(r) && r.0 * (x.1 * y.1) == (x.0 * y.1 - y.0 * x.1)
            * r.1,
        rat_mul(x, y) matches Some(r) ==> pair_wf(r) && r.0 * (x.1 * y.1) == (x.0 * y.0) * r.1,
        rat_div(x, y) matches Some(r) ==> pair_wf(r) && y.0 != 0 && r.0 * (x.1 * y.0) == (x.0 * y.1)
            * r.1,
{
    let d = x.1 * y.1;
    assert(d > 0) by (nonlinear_arith)
        requires
            x.1 > 0,
            y.1 > 0,
            d == x.1 * y.1,
    ;
    let p = x.0 * y.1;
    let q = y.0 * x.1;
    if fits(p) && fits(q) && fits(p + q) && fits(d) {
        lemma_reduce((p + q, d));
    }
    if fits(p) && fits(q) && fits(p - q) && fits(d) {
        lemma_reduce((p - q, d));
    }
    let n = x.0 * y.0;
    if fits(n) && fits(d) {
        lemma_reduce((n, d));
    }
    let dn = x.0 * y.1;
    let dd = x.1 * y.0;
    if y.0 != 0 && fits(dn) && fits(dd) {
        if y.0 < 0 {
            assert(-dd > 0) by (nonlinear_arith)
                requires
                    x.1 > 0,
                    y.0 < 0,
                    dd == x.1 * y.0,
            ;
            lemma_reduce((-dn, -dd));
            let r = reduce((-dn, -dd));
            assert(r.0 * dd == dn * r.1) by (nonlinear_arith)
                requires
                    (-dn) * r.1 == r.0 * (-dd),
            ;
        } else {
            assert(dd > 0) by (nonlinear_arith)
                requires
                    x.1 > 0,
                    y.0 > 0,
                    dd == x.1 * y.0,
            ;
            lemma_reduce((dn, dd));
        }
    }
}

fn gcd_exec(a: u128, b: u128) -> (r: u128)
    ensures
        r == gcd(a as nat, b as nat),
{
    let mut x = a;
    let mut y = b;
    while y != 0
        invariant
            gcd(x as nat, y as nat) == gcd(a as nat, b as nat),
        decreases y,
    {
        let t = x % y;
        x = y;
        y = t;
    }
    x
}

/// `Rat` of `n / d` in lowest terms.
fn reduced(n: i128, d: i128) -> (r: Rat)
    requires
        pair_wf((n as int, d as int)),
    ensures
        r.wf(),
        r.pair() == reduce((n as int, d as int)),
{
    proof {
        lemma_reduce((n as int, d as int));
        lemma_gcd_divides(abs(n as int) as nat, d as nat);
    }
    let an: u128 = if n < 0 {
        (-n) as u128
    } else {
        n as u128
    };
    let g = gcd_exec(an, d as u128);
    let qa = an / g;
    let qb = (d as u128) / g;
    assert(qb == reduce((n as int, d as int)).1);
    if n < 0 {
        assert(-(qa as int) == reduce((n as int, d as int)).0);
        Rat { num: -(qa as i128), den: qb as i128 }
    } else {
        Rat { num: qa as i128, den: qb as i128 }
    }
}

/// `x + y`, when every product and the sum stay in range.
pub open spec fn rat_add(x: (int, int), y: (int, int)) -> Option<(int, int)> {
    let p = x.0 * y.1;
    let q = y.0 * x.1;
    let d = x.1 * y.1;
    if fits(p) && fits(q) && fits(p + q) && fits(d) {
        Some(reduce((p + q, d)))
    } else {
        None
    }
}

/// `x - y`, when every product and the difference stay in range.
pub open spec fn rat_sub(x: (int, int), y: (int, int)) -> Option<(int, int)> {
    let p = x.0 * y.1;
    let q = y.0 * x.1;
    let d = x.1 * y.1;
    if fits(p) && fits(q) && fits(p - q) && fits(d) {
        Some(reduce((p - q, d)))
    } else {
        None
    }
}

pub open spec fn rat_neg(x: (int, int)) -> (int, int) {
    (-x.0, x.1)
}

/// `x * y`, when both products stay in range.
pub open spec fn rat_mul(x: (int, int), y: (int, int)) -> Option<(int, int)> {
    let n = x.0 * y.0;
    let d = x.1 * y.1;
    if fits(n) && fits(d) {
        Some(reduce((n, d)))
    } else {
        None
    }
}

/// `x / y`; undefined for `y == 0`.
pub open spec fn rat_div(x: (int, int), y: (int, int)) -> Option<(int, int)> {
    let n = x.0 * y.1;
    let d = x.1 * y.0;
    if y.0 == 0 || !fits(n) || !fits(d) {
        None
    } else if y.0 < 0 {
        Some(reduce((-n, -d)))
    } else {
        Some(reduce((n, d)))
    }
}

/// Remainder of truncating division (sign of the dividend), for `b != 0`.
pub open spec fn trunc_rem(a: int, b: int) -> int {
    if a >= 0 {
        a % abs(b)
    } else {
        -((-a) % abs(b))
    }
}

/// `x % y` with the sign of `x` (floating-point `%`); undefined for `y == 0`.
pub open spec fn rat_rem(x: (int, int), y: (int, int)) -> Option<(int, int)> {
    let n1 = x.0 * y.1;
    let n2 = y.0 * x.1;
    let d = x.1 * y.1;
    if y.0 == 0 || !fits(n1) || !fits(n2) || !fits(d) {
        None
    } else {
        Some(reduce((trunc_rem(n1, n2), d)))
    }
}

/// `x ^ y` for an integer exponent `y`; undefined for other exponents and for
/// a zero base with a negative exponent.
pub open spec fn rat_pow(x: (int, int), y: (int, int)) -> Option<(int, int)> {
    if y.1 == 0 || y.0 % y.1 != 0 {
        None
    } else {
        let e = y.0 / y.1;
        if e >= 0 {
            let n = pow(x.0, e as nat);
            let d = pow(x.1, e as nat);
            if fits(n) && fits(d) {
                Some(reduce((n, d)))
            } else {
                None
            }
        } else if x.0 == 0 {
            None
        } else {
            let n = pow(x.1, (-e) as nat);
            let d = pow(x.0, (-e) as nat);
            if !fits(n) || !fits(d) {
                None
            } else if d < 0 {
                Some(reduce((-n, -d)))
            } else {
                Some(reduce((n, d)))
            }
        }
    }
}

pub fn mul_fit(a: i128, b: i128) -> (r: Option<i128>)
    requires
        fits(a as int),
        fits(b as int),
    ensures
        match r {
            Some(v) => fits(a * b) && v == a * b,
            None => !fits(a * b),
        },
{
    match a.checked_mul(b) {
        Some(v) => {
            if v == i128::MIN {
                None
            } else {
                Some(v)
            }
        },
        None => None,
    }
}

pub fn add_fit(a: i128, b: i128) -> (r: Option<i128>)
    requires
        fits(a as int),
        fits(b as int),
    ensures
        match r {
            Some(v) => fits(a + b) && v == a + b,
            None => !fits(a + b),
        },
{
    match a.checked_add(b) {
        Some(v) => {
            if v == i128::MIN {
                None
            } else {
                Some(v)
            }
        },
        None => None,
    }
}

pub fn plus(x: Rat, y: Rat) -> (r: Option<Rat>)
    requires
        x.wf(),
        y.wf(),
    ensures
        match r {
            Some(v) => v.wf() && rat_add(x.pair(), y.pair()) == Some(v.pair()),
            None => rat_add(x.pair(), y.pair()) is None,
        },
{
    let p = mul_fit(x.num, y.den)?;
    let q = mul_fit(y.num, x.den)?;
    let d = mul_fit(x.den, y.den)?;
    let n = add_fit(p, q)?;
    assert(d > 0) by (nonlinear_arith)
        requires
            x.den > 0,
            y.den > 0,
            d == x.den * y.den,
    ;
    Some(reduced(n, d))
}

pub fn minus(x: Rat, y: Rat) -> (r: Option<Rat>)
    requires
        x.wf(),
        y.wf(),
    ensures
        match r {
            Some(v) => v.wf() && rat_sub(x.pair(), y.pair()) == Some(v.pair()),
            None => rat_sub(x.pair(), y.pair()) is None,
        },
{
    let p = mul_fit(x.num, y.den)?;
    let q = mul_fit(y.num, x.den)?;
    let d = mul_fit(x.den, y.den)?;
    let n = add_fit(p, -q)?;
    assert(d > 0) by (nonlinear_arith)
        requires
            x.den > 0,
            y.den > 0,
            d == x.den * y.den,
    ;
    Some(reduced(n, d))
}

pub fn negate(x: Rat) -> (r: Rat)
    requires
        x.wf(),
    ensures
        r.wf(),
        r.pair() == rat_neg(x.pair()),
{
    Rat { num: -x.num, den: x.den }
}

pub fn times(x: Rat, y: Rat) -> (r: Option<Rat>)
    requires
        x.wf(),
        y.wf(),
    ensures
        match r {
            Some(v) => v.wf() && rat_mul(x.pair(), y.pair()) == Some(v.pair()),
            None => rat_mul(x.pair(), y.pair()) is None,
        },
{
    let n = mul_fit(x.num, y.num)?;
    let d = mul_fit(x.den, y.den)?;
    assert(d > 0) by (nonlinear_arith)
        requires
            x.den > 0,
            y.den > 0,
            d == x.den * y.den,
    ;
    Some(reduced(n, d))
}

pub fn over(x: Rat, y: Rat) -> (r: Option<Rat>)
    requires
        x.wf(),
        y.wf(),
    ensures
        match r {
            Some(v) => v.wf() && rat_div(x.pair(), y.pair()) == Some(v.pair()),
            None => rat_div(x.pair(), y.pair()) is None,
        },
{
    if y.num == 0 {
        return None;
    }
    let n = mul_fit(x.num, y.den)?;
    let d = mul_fit(x.den, y.num)?;
    if y.num < 0 {
        assert(d < 0) by (nonlinear_arith)
            requires
                x.den > 0,
                y.num < 0,
                d == x.den * y.num,
        ;
        Some(reduced(-n, -d))
    } else {
        assert(d > 0) by (nonlinear_arith)
            requires
                x.den > 0,
                y.num > 0,
                d == x.den * y.num,
        ;
        Some(reduced(n, d))
    }
}

fn trunc_rem_exec(a: i128, b: i128) -> (r: i128)
    requires
        fits(a as int),
        fits(b as int),
        b != 0,
    ensures
        r == trunc_rem(a as int, b as int),
        fits(r as int),
{
    let m: i128 = if b < 0 {
        -b
    } else {
        b
    };
    if a >= 0 {
        let r = a % m;
        assert(0 <= r < m);
        r
    } else {
        let na: i128 = -a;
        let r = na % m;
        assert(0 <= r < m);
        -r
    }
}

pub fn modulo(x: Rat, y: Rat) -> (r: Option<Rat>)
    requires
        x.wf(),
        y.wf(),
    ensures
        match r {
            Some(v) => v.wf() && rat_rem(x.pair(), y.pair()) == Some(v.pair()),
            None => rat_rem(x.pair(), y.pair()) is None,
        },
{
    if y.num == 0 {
        return None;
    }
    let n1 = mul_fit(x.num, y.den)?;
    let n2 = mul_fit(y.num, x.den)?;
    let d = mul_fit(x.den, y.den)?;
    assert(d > 0) by (nonlinear_arith)
        requires
            x.den > 0,
            y.den > 0,
            d == x.den * y.den,
    ;
    assert(n2 != 0) by (nonlinear_arith)
        requires
            x.den > 0,
            y.num != 0,
            n2 == y.num * x.den,
    ;
    let t = trunc_rem_exec(n1, n2);
    Some(reduced(t, d))
}

proof fn lemma_pow_abs_ge(b: int, e: nat)
    requires
        abs(b) >= 1,
    ensures
        abs(pow(b, e)) >= 1,
        abs(pow(b, e + 1)) >= abs(pow(b, e)),
        abs(pow(b, e + 1)) == abs(b) * abs(pow(b, e)),
    decreases e,
{
    vstd::arithmetic::power::lemma_pow_adds(b, e, 1);
    vstd::arithmetic::power::lemma_pow1(b);
    let p = pow(b, e);
    if e > 0 {
        lemma_pow_abs_ge(b, (e - 1) as nat);
    } else {
        vstd::arithmetic::power::lemma_pow0(b);
    }
    assert(pow(b, e + 1) == p * b);
    assert(abs(p * b) == abs(b) * abs(p)) by (nonlinear_arith);
    assert(abs(b) * abs(p) >= abs(p)) by (nonlinear_arith)
        requires
            abs(b) >= 1,
            abs(p) >= 0,
    ;
}

proof fn lemma_pow_mono(b: int, i: nat, e: nat)
    requires
        abs(b) >= 1,
        i <= e,
    ensures
        abs(pow(b, i)) <= abs(pow(b, e)),
    decreases e - i,
{
    if i < e {
        lemma_pow_abs_ge(b, i);
        lemma_pow_mono(b, i + 1, e);
    }
}

proof fn lemma_pow_unit(b: int, e: nat)
    requires
        -1 <= b <= 1,
    ensures
        b == 0 ==> pow(b, e) == (if e == 0 {
            1int
        } else {
            0int
        }),
        b == 1 ==> pow(b, e) == 1,
        b == -1 ==> pow(b, e) == (if e % 2 == 0 {
            1int
        } else {
            -1int
        }),
    decreases e,
{
    vstd::arithmetic::power::lemma_pow0(b);
    if e > 0 {
        lemma_pow_unit(b, (e - 1) as nat);
        vstd::arithmetic::power::lemma_pow_adds(b, (e - 1) as nat, 1);
        vstd::arithmetic::power::lemma_pow1(b);
        assert(pow(b, e) == pow(b, (e - 1) as nat) * b);
        if b == -1 {
            if e % 2 == 0 {
                assert((e - 1) % 2 == 1);
            } else {
                assert((e - 1) % 2 == 0);
            }
        }
    }
}

/// `b ^ e` when it fits in range.
pub fn pow_fit(b: i128, e: u128) -> (r: Option<i128>)
    requires
        fits(b as int),
    ensures
        match r {
            Some(v) => fits(pow(b as int, e as nat)) && v == pow(b as int, e as nat),
            None => !fits(pow(b as int, e as nat)),
        },
{
    if -1 <= b && b <= 1 {
        proof {
            lemma_pow_unit(b as int, e as nat);
        }
    }
    if b == 0 {
        return if e == 0 {
            Some(1)
        } else {
            Some(0)
        };
    }
    if b == 1 {
        return Some(1);
    }
    if b == -1 {
        return if e % 2 == 0 {
            Some(1)
        } else {
            Some(-1)
        };
    }
    let mut acc: i128 = 1;
    let mut i: u128 = 0;
    proof {
        vstd::arithmetic::power::lemma_pow0(b as int);
    }
    while i < e
        invariant
            i <= e,
            abs(b as int) >= 2,
            fits(b as int),
            acc == pow(b as int, i as nat),
            fits(acc as int),
        decreases e - i,
    {
        proof {
            lemma_pow_abs_ge(b as int, i as nat);
            vstd::arithmetic::power::lemma_pow_adds(b as int, i as nat, 1);
            vstd::arithmetic::power::lemma_pow1(b as int);
        }
        match mul_fit(acc, b) {
            Some(v) => {
                acc = v;
                i = i + 1;
            },
            None => {
                proof {
                    lemma_pow_mono(b as int, (i + 1) as nat, e as nat);
                }
                return None;
            },
        }
    }
    Some(acc)
}

pub fn raise(x: Rat, y: Rat) -> (r: Option<Rat>)
    requires
        x.wf(),
        y.wf(),
    ensures
        match r {
            Some(v) => v.wf() && rat_pow(x.pair(), y.pair()) == Some(v.pair()),
            None => rat_pow(x.pair(), y.pair()) is None,
        },
{
    let e: i128 = match integer_value(y) {
        Some(e) => e,
        None => return None,
    };
    if e >= 0 {
        let n = pow_fit(x.num, e as u128)?;
        let d = pow_fit(x.den, e as u128)?;
        proof {
            vstd::arithmetic::power::lemma_pow_positive(x.den as int, e as nat);
        }
        Some(reduced(n, d))
    } else {
        if x.num == 0 {
            return None;
        }
        let me: i128 = -e;
        let n = pow_fit(x.den, me as u128)?;
        let d = pow_fit(x.num, me as u128)?;
        proof {
            vstd::arithmetic::power::lemma_pow_positive(x.den as int, me as nat);
            lemma_pow_nonzero(x.num as int, me as nat);
        }
        if d < 0 {
            Some(reduced(-n, -d))
        } else {
            Some(reduced(n, d))
        }
    }
}

/// The integer `y` denotes, if it denotes one.
fn integer_value(y: Rat) -> (r: Option<i128>)
    requires
        y.wf(),
    ensures
        match r {
            Some(e) => y.num % y.den == 0 && e == y.num / y.den && fits(e as int),
            None => y.num % y.den != 0,
        },
{
    let d: i128 = y.den;
    if y.num >= 0 {
        let a: i128 = y.num;
        if a % d != 0 {
            return None;
        }
        assert(0 <= a / d <= a) by (nonlinear_arith)
            requires
                a >= 0,
                d >= 1,
        ;
        Some(a / d)
    } else {
        let a: i128 = -y.num;
        let q = a / d;
        let m = a % d;
        assert(0 <= a / d <= a) by (nonlinear_arith)
            requires
                a >= 0,
                d >= 1,
        ;
        proof {
            lemma_fundamental_div_mod(a as int, d as int);
        }
        if m != 0 {
            proof {
                if (y.num as int) % (d as int) == 0 {
                    lemma_fundamental_div_mod(y.num as int, d as int);
                    let k = (y.num as int) / (d as int);
                    assert(a as int == d * (-k)) by (nonlinear_arith)
                        requires
                            y.num == d * k,
                            a == -y.num,
                    ;
                    lemma_mod_multiples_basic(-k, d as int);
                    assert((-k) * d == d * (-k)) by (nonlinear_arith);
                }
            }
            return None;
        }
        proof {
            assert(a as int == d * q);
            assert(y.num as int == (-q) * d) by (nonlinear_arith)
                requires
                    a == d * q,
                    a == -y.num,
            ;
            lemma_mod_multiples_basic(-(q as int), d as int);
            lemma_div_multiples_vanish(-(q as int), d as int);
            assert(d * (-(q as int)) == (-(q as int)) * d) by (nonlinear_arith);
        }
        Some(-q)
    }
}

proof fn lemma_pow_nonzero(b: int, e: nat)
    requires
        b != 0,
    ensures
        pow(b, e) != 0,
    decreases e,
{
    vstd::arithmetic::power::lemma_pow0(b);
    if e > 0 {
        lemma_pow_nonzero(b, (e - 1) as nat);
        vstd::arithmetic::power::lemma_pow_adds(b, (e - 1) as nat, 1);
        vstd::arithmetic::power::lemma_pow1(b);
        let p = pow(b, (e - 1) as nat);
        assert(p * b != 0) by (nonlinear_arith)
            requires
                p != 0,
                b != 0,
        ;
    }
}


/// The decimal digit character for `d` in `0..10`.
pub open spec fn digit_char(d: int) -> char {
    (48 + d) as char
}

/// Decimal digits of `n`, most significant first, without leading zeros.
pub open spec fn nat_digits(n: nat) -> Seq<char>
    decreases n,
{
    if n < 10 {
        seq![digit_char(n as int)]
    } else {
        nat_digits(n / 10).push(digit_char((n % 10) as int))
    }
}

/// The last `k` decimal digits of `n`, zero-padded.
pub open spec fn fixed_digits(n: nat, k: nat) -> Seq<char>
    decreases k,
{
    if k == 0 {
        seq![]
    } else {
        fixed_digits(n / 10, (k - 1) as nat).push(digit_char((n % 10) as int))
    }
}

/// `s` without trailing `'0'` characters.
pub open spec fn strip_zeros(s: Seq<char>) -> Seq<char>
    decreases s.len(),
{
    if s.len() > 0 && s.last() == '0' {
        strip_zeros(s.drop_last())
    } else {
        s
    }
}

/// The fractional part `f` (millionths) as `.ddd` without trailing zeros, or
/// nothing when it is zero.
pub open spec fn frac_part(f: nat) -> Seq<char> {
    let t = strip_zeros(fixed_digits(f, 6));
    if t.len() == 0 {
        seq![]
    } else {
        seq!['.'] + t
    }
}

/// `m / d` in millionths, rounded to the nearest, an exact tie to the even
/// neighbour (as `{:.6}` rounds).
pub open spec fn round6(m: int, d: int) -> int {
    let q = (m * 1000000) / d;
    let r = (m * 1000000) % d;
    if 2 * r > d || (2 * r == d && q % 2 == 1) {
        q + 1
    } else {
        q
    }
}

/// The launcher's rendering of a rational number: rounded to six decimals,
/// trailing zeros and a bare decimal point dropped; a value that rounds to
/// zero is `"0"`, never `"-0"`.
pub open spec fn format_rat(x: (int, int)) -> Seq<char> {
    if x.0 == 0 || round6(abs(x.0), x.1) == 0 {
        seq!['0']
    } else {
        let q = round6(abs(x.0), x.1);
        (if x.0 < 0 {
            seq!['-']
        } else {
            seq![]
        }) + nat_digits((q / 1000000) as nat) + frac_part((q % 1000000) as nat)
    }
}

fn digit_char_exec(d: u128) -> (c: char)
    requires
        d < 10,
    ensures
        c == digit_char(d as int),
{
    let b: u8 = (48 + d) as u8;
    b as char
}

/// Appends the decimal digits of `n`.
pub fn push_digits(n: u128, out: &mut Vec<char>)
    ensures
        final(out)@ == old(out)@ + nat_digits(n as nat),
    decreases n,
{
    if n < 10 {
        out.push(digit_char_exec(n));
        assert(nat_digits(n as nat) =~= seq![digit_char(n as int)]);
    } else {
        push_digits(n / 10, out);
        out.push(digit_char_exec(n % 10));
    }
}

fn push_fixed_digits(n: u128, k: u32, out: &mut Vec<char>)
    ensures
        final(out)@ == old(out)@ + fixed_digits(n as nat, k as nat),
    decreases k,
{
    if k == 0 {
        assert(old(out)@ + fixed_digits(n as nat, 0) =~= old(out)@);
    } else {
        push_fixed_digits(n / 10, k - 1, out);
        out.push(digit_char_exec(n % 10));
        assert(final(out)@ =~= old(out)@ + fixed_digits(n as nat, k as nat));
    }
}

fn strip_zeros_exec(v: &mut Vec<char>)
    ensures
        final(v)@ == strip_zeros(old(v)@),
{
    while v.len() > 0 && v[v.len() - 1] == '0'
        invariant
            strip_zeros(v@) == strip_zeros(old(v)@),
        decreases v@.len(),
    {
        let ghost before = v@;
        v.pop();
        assert(v@ =~= before.drop_last());
    }
}

/// Next decimal digit of `r / d` (with `r < d`): `(10 r) / d` and `(10 r) % d`.
fn next_digit(r: u128, d: u128) -> (res: (u128, u128))
    requires
        r < d,
        d <= LIM,
    ensures
        res.0 < 10,
        res.1 < d,
        10 * r == d * res.0 + res.1,
{
    let mut acc: u128 = 0;
    let mut k: u128 = 0;
    let mut t: u128 = 0;
    while t < 10
        invariant
            r < d <= LIM,
            t <= 10,
            k <= t,
            acc < d,
            acc + d * k == r * t,
        decreases 10 - t,
    {
        assert(acc + r < 2 * d);
        let ghost a0 = acc;
        let ghost k0 = k;
        let ghost t0 = t;
        acc = acc + r;
        if acc >= d {
            acc = acc - d;
            k = k + 1;
        }
        t = t + 1;
        assert(acc + d * k == a0 + d * k0 + r) by (nonlinear_arith)
            requires
                (acc == a0 + r && k == k0) || (acc == a0 + r - d && k == k0 + 1),
        ;
        assert(r * t == r * t0 + r) by (nonlinear_arith)
            requires
                t == t0 + 1,
        ;
    }
    assert(k < 10) by (nonlinear_arith)
        requires
            acc + d * k == r * 10,
            r < d,
            acc >= 0,
    ;
    (k, acc)
}

proof fn lemma_pow10_6()
    ensures
        pow(10, 6) == 1000000,
{
    reveal_with_fuel(pow, 7);
}

proof fn lemma_round6(m: int, d: int, ip: int, f: int, r6: int)
    requires
        d > 0,
        m >= 0,
        0 <= r6 < d,
        0 <= f,
        m * 1000000 == d * (ip * 1000000 + f) + r6,
    ensures
        round6(m, d) == ip * 1000000 + f + (if 2 * r6 > d || (2 * r6 == d && f % 2 == 1) {
            1int
        } else {
            0int
        }),
{
    let big_q = ip * 1000000 + f;
    assert(m * 1000000 == big_q * d + r6) by (nonlinear_arith)
        requires
            m * 1000000 == d * (ip * 1000000 + f) + r6,
            big_q == ip * 1000000 + f,
    ;
    lemma_fundamental_div_mod_converse(m * 1000000, d, big_q, r6);
    assert(big_q % 2 == f % 2) by (nonlinear_arith)
        requires
            big_q == ip * 1000000 + f,
    ;
}

/// Renders `x` as [`format_rat`] describes.
pub fn render(x: Rat) -> (r: Vec<char>)
    requires
        x.wf(),
    ensures
        r@ == format_rat(x.pair()),
{
    if x.num == 0 {
        let mut v: Vec<char> = Vec::new();
        v.push('0');
        assert(v@ =~= seq!['0']);
        return v;
    }
    let m: u128 = if x.num < 0 {
        (-x.num) as u128
    } else {
        x.num as u128
    };
    let d: u128 = x.den as u128;
    let ip: u128 = m / d;
    let r0: u128 = m % d;
    let mut r: u128 = r0;
    let mut f: u128 = 0;
    let mut j: u32 = 0;
    let ghost mut p10: int = 1;
    proof {
        vstd::arithmetic::power::lemma_pow0(10);
        lemma_pow10_6();
    }
    while j < 6
        invariant
            0 < d <= LIM,
            r0 < d,
            j <= 6,
            r < d,
            p10 == pow(10, j as nat),
            r0 * p10 == d * f + r,
            0 <= f < p10,
            pow(10, 6) == 1000000,
        decreases 6 - j,
    {
        let (k, acc) = next_digit(r, d);
        proof {
            vstd::arithmetic::power::lemma_pow_increases(10, (j + 1) as nat, 6);
            vstd::arithmetic::power::lemma_pow_adds(10, j as nat, 1);
            vstd::arithmetic::power::lemma_pow1(10);
            assert(r0 * (p10 * 10) == d * (10 * f + k) + acc) by (nonlinear_arith)
                requires
                    r0 * p10 == d * f + r,
                    10 * r == d * k + acc,
            ;
            assert(10 * f + k < p10 * 10) by (nonlinear_arith)
                requires
                    f < p10,
                    k < 10,
            ;
            p10 = p10 * 10;
        }
        f = 10 * f + k;
        r = acc;
        j = j + 1;
    }
    proof {
        lemma_pow10_6();
        lemma_fundamental_div_mod(m as int, d as int);
        assert(m * 1000000 == d * (ip * 1000000 + f) + r) by (nonlinear_arith)
            requires
                m == d * ip + r0,
                r0 * 1000000 == d * f + r,
        ;
        lemma_round6(m as int, d as int, ip as int, f as int, r as int);
    }
    let up: bool = r > d - r || (r == d - r && f % 2 == 1);
    let mut fr: u128 = if up {
        f + 1
    } else {
        f
    };
    let mut iq: u128 = ip;
    if fr == 1000000 {
        fr = 0;
        iq = ip + 1;
    }
    proof {
        let q = round6(m as int, d as int);
        assert(ip <= m) by (nonlinear_arith)
            requires
                m == d * ip + r0,
                d >= 1,
                r0 >= 0,
        ;
        lemma_fundamental_div_mod_converse(q, 1000000, iq as int, fr as int);
    }
    if iq == 0 && fr == 0 {
        let mut v: Vec<char> = Vec::new();
        v.push('0');
        assert(v@ =~= seq!['0']);
        return v;
    }
    let mut out: Vec<char> = Vec::new();
    if x.num < 0 {
        out.push('-');
    }
    push_digits(iq, &mut out);
    let mut frac: Vec<char> = Vec::new();
    push_fixed_digits(fr, 6, &mut frac);
    strip_zeros_exec(&mut frac);
    if frac.len() > 0 {
        out.push('.');
        let mut i: usize = 0;
        let ghost base = out@;
        while i < frac.len()
            invariant
                i <= frac@.len(),
                out@ == base + frac@.subrange(0, i as int),
            decreases frac@.len() - i,
        {
            out.push(frac[i]);
            i = i + 1;
            assert(out@ =~= base + frac@.subrange(0, i as int));
        }
        assert(frac@.subrange(0, frac@.len() as int) =~= frac@);
    }
    proof {
        let q = round6(m as int, d as int);
        let sign = if x.num < 0 {
            seq!['-']
        } else {
            seq![]
        };
        assert(abs(x.num as int) == m);
        if frac@.len() > 0 {
            assert(out@ =~= sign + nat_digits(iq as nat) + (seq!['.'] + frac@));
        } else {
            assert(out@ =~= sign + nat_digits(iq as nat) + seq![]);
        }
    }
    out
}


/// Value of a string of decimal digits.
pub open spec fn digits_val(s: Seq<char>) -> int
    decreases s.len(),
{
    if s.len() == 0 {
        0
    } else {
        digits_val(s.drop_last()) * 10 + (s.last() as int - 48)
    }
}

pub open spec fn all_digits(s: Seq<char>) -> bool {
    forall|i: int| 0 <= i < s.len() ==> '0' <= #[trigger] s[i] && s[i] <= '9'
}

/// Index of the first `'.'` at or after `i`, or the length.
pub open spec fn first_dot(r: Seq<char>, i: int) -> int
    decreases r.len() - i,
{
    if i < 0 || i >= r.len() {
        r.len() as int
    } else if r[i] == '.' {
        i
    } else {
        first_dot(r, i + 1)
    }
}

/// The number a run of digits and points denotes, as the standard float
/// parser reads it: at most one point and at least one digit, so `"1."`,
/// `".5"` and `"1.5"` are numbers and `"."` or `"1.2.3"` are not. The value is
/// exact: `"2.5"` is `25 / 10`.
pub open spec fn decimal_value(r: Seq<char>) -> Option<(int, int)> {
    let k = first_dot(r, 0);
    let ip = r.subrange(0, k);
    let fp = if k < r.len() {
        r.subrange(k + 1, r.len() as int)
    } else {
        seq![]
    };
    if fp.contains('.') || ip.len() + fp.len() == 0 {
        None
    } else {
        let d = pow(10, fp.len());
        let n = digits_val(ip) * d + digits_val(fp);
        if fits(n) && fits(d) {
            Some((n, d))
        } else {
            None
        }
    }
}

pub(crate) proof fn lemma_digits_val_nonneg_prefix(s: Seq<char>, i: int)
    requires
        all_digits(s),
        0 <= i <= s.len(),
    ensures
        0 <= digits_val(s.subrange(0, i)) <= digits_val(s),
    decreases s.len() - i,
{
    if i < s.len() {
        lemma_digits_val_nonneg_prefix(s, i + 1);
        let t = s.subrange(0, i + 1);
        assert(t.drop_last() =~= s.subrange(0, i));
        assert('0' <= t.last() <= '9');
    } else {
        assert(s.subrange(0, i) =~= s);
        lemma_digits_val_nonneg(s);
    }
}

proof fn lemma_digits_val_nonneg(s: Seq<char>)
    requires
        all_digits(s),
    ensures
        digits_val(s) >= 0,
    decreases s.len(),
{
    if s.len() > 0 {
        lemma_digits_val_nonneg(s.drop_last());
        assert('0' <= s.last() <= '9');
    }
}

/// Value of `s[a..b]`, all digits, if it fits.
fn digits_value_exec(s: &[char], a: usize, b: usize) -> (r: Option<i128>)
    requires
        a <= b <= s@.len(),
        all_digits(s@.subrange(a as int, b as int)),
    ensures
        match r {
            Some(v) => v == digits_val(s@.subrange(a as int, b as int)) && fits(v as int),
            None => !fits(digits_val(s@.subrange(a as int, b as int))),
        },
{
    let ghost w = s@.subrange(a as int, b as int);
    let mut acc: i128 = 0;
    let mut i = a;
    proof {
        lemma_digits_val_nonneg_prefix(w, 0);
        assert(w.subrange(0, 0) =~= seq![]);
    }
    while i < b
        invariant
            a <= i <= b <= s@.len(),
            w == s@.subrange(a as int, b as int),
            all_digits(w),
            acc == digits_val(w.subrange(0, i - a)),
            0 <= acc,
            fits(acc as int),
        decreases b - i,
    {
        let c = s[i];
        assert(c == w[i - a]);
        let dg: i128 = ((c as u32) - 48) as i128;
        proof {
            assert(w.subrange(0, i - a + 1).drop_last() =~= w.subrange(0, i - a));
            lemma_digits_val_nonneg_prefix(w, i - a + 1);
        }
        let m = match mul_fit(acc, 10) {
            Some(m) => m,
            None => {
                proof {
                    assert(acc * 10 + dg >= acc * 10);
                }
                return None;
            },
        };
        let v = match add_fit(m, dg) {
            Some(v) => v,
            None => {
                return None;
            },
        };
        acc = v;
        i = i + 1;
    }
    assert(w.subrange(0, b - a) =~= w);
    Some(acc)
}

/// Parses a run of digits and points (see [`decimal_value`]).
pub fn parse_decimal(s: &[char], a: usize, b: usize) -> (r: Option<Rat>)
    requires
        a <= b <= s@.len(),
        forall|i: int| a <= i < b ==> ('0' <= #[trigger] s@[i] <= '9' || s@[i] == '.'),
    ensures
        match r {
            Some(v) => v.wf() && decimal_value(s@.subrange(a as int, b as int)) == Some(
                v.pair(),
            ),
            None => decimal_value(s@.subrange(a as int, b as int)) is None,
        },
{
    let ghost w = s@.subrange(a as int, b as int);
    let mut k = a;
    while k < b && s[k] != '.'
        invariant
            a <= k <= b <= s@.len(),
            w == s@.subrange(a as int, b as int),
            first_dot(w, 0) == first_dot(w, k - a),
            forall|i: int| a <= i < k ==> '0' <= #[trigger] s@[i] <= '9',
            forall|i: int| a <= i < b ==> ('0' <= #[trigger] s@[i] <= '9' || s@[i] == '.'),
        decreases b - k,
    {
        k = k + 1;
    }
    proof {
        if k < b {
            assert(w[k - a] == s@[k as int]);
        }
        assert(first_dot(w, 0) == k - a);
    }
    let has_dot = k < b;
    let fs: usize = if has_dot {
        k + 1
    } else {
        b
    };
    let ghost ip = w.subrange(0, k - a);
    let ghost fp = if (k - a) < w.len() {
        w.subrange(k - a + 1, w.len() as int)
    } else {
        seq![]
    };
    assert(ip =~= s@.subrange(a as int, k as int));
    assert(fp =~= s@.subrange(fs as int, b as int));
    let mut j = fs;
    while j < b
        invariant
            fs <= j <= b <= s@.len(),
            forall|i: int| fs <= i < j ==> '0' <= #[trigger] s@[i] <= '9',
            forall|i: int| a <= i < b ==> ('0' <= #[trigger] s@[i] <= '9' || s@[i] == '.'),
            a <= fs,
            fp == s@.subrange(fs as int, b as int),
            w == s@.subrange(a as int, b as int),
            first_dot(w, 0) == k - a,
            fp == (if (k - a) < w.len() {
                w.subrange(k - a + 1, w.len() as int)
            } else {
                seq![]
            }),
        decreases b - j,
    {
        if s[j] == '.' {
            assert(fp[j - fs] == '.');
            assert(fp.contains('.'));
            return None;
        }
        j = j + 1;
    }
    assert(!fp.contains('.'));
    if k == a && fs == b {
        return None;
    }
    assert(all_digits(ip));
    assert(all_digits(fp));
    let flen: u128 = (b - fs) as u128;
    let ghost dd = pow(10, fp.len());
    let d = match pow_fit(10, flen) {
        Some(d) => d,
        None => return None,
    };
    proof {
        vstd::arithmetic::power::lemma_pow_positive(10, fp.len());
        lemma_digits_val_nonneg(ip);
        lemma_digits_val_nonneg(fp);
        assert(digits_val(ip) * dd >= digits_val(ip)) by (nonlinear_arith)
            requires
                dd >= 1,
                digits_val(ip) >= 0,
        ;
    }
    let iv = match digits_value_exec(s, a, k) {
        Some(v) => v,
        None => return None,
    };
    let fv = match digits_value_exec(s, fs, b) {
        Some(v) => v,
        None => return None,
    };
    let m = match mul_fit(iv, d) {
        Some(m) => m,
        None => return None,
    };
    let n = match add_fit(m, fv) {
        Some(n) => n,
        None => return None,
    };
    Some(Rat { num: n, den: d })
}

} // verus!
