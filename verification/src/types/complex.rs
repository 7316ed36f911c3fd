//! Integer combinatorics used to raise complex numbers to integer powers:
//! factorials, binomial coefficients, and the powers of the imaginary unit.
use vstd::prelude::*;

verus! {

/// `n!`.
pub open spec fn factorial(n: nat) -> nat
    decreases n,
{
    if n == 0 { 1 } else { n * factorial((n - 1) as nat) }
}

/// The binomial coefficient `nCr`, by Pascal's rule.
pub open spec fn binomial(n: nat, r: nat) -> nat
    decreases n,
{
    if r == 0 {
        1
    } else if n == 0 {
        0
    } else {
        binomial((n - 1) as nat, (r - 1) as nat) + binomial((n - 1) as nat, r)
    }
}

/// Factorials are positive and grow with their argument.
pub proof fn lemma_factorial_grows(m: nat, n: nat)
    requires
        m <= n,
    ensures
        1 <= factorial(m) <= factorial(n),
    decreases n,
{
    if n > 0 {
        if m < n {
            lemma_factorial_grows(m, (n - 1) as nat);
        } else {
            lemma_factorial_grows(0, (n - 1) as nat);
        }
        assert(factorial((n - 1) as nat) <= n * factorial((n - 1) as nat)) by (nonlinear_arith)
            requires n >= 1, factorial((n - 1) as nat) >= 1;
    }
}

/// There is no way to choose more items than there are.
pub proof fn lemma_binomial_zero_above(n: nat, r: nat)
    requires
        r > n,
    ensures
        binomial(n, r) == 0,
    decreases n,
{
    if n > 0 {
        lemma_binomial_zero_above((n - 1) as nat, (r - 1) as nat);
        lemma_binomial_zero_above((n - 1) as nat, r);
    }
}

/// `nCr * r! * (n - r)! == n!`: the binomial coefficient is the quotient
/// that computes it from factorials.
pub proof fn lemma_binomial_factorials(n: nat, r: nat)
    requires
        r <= n,
    ensures
        binomial(n, r) * factorial(r) * factorial((n - r) as nat) == factorial(n),
    decreases n,
{
    assert(factorial(0) == 1);
    if r == 0 {
        assert(binomial(n, 0) == 1);
        assert((n - 0) as nat == n);
        let fnn = factorial(n);
        assert(binomial(n, 0) * factorial(0) * fnn == fnn) by (nonlinear_arith)
            requires binomial(n, 0) == 1, factorial(0) == 1;
    } else {
        let n1 = (n - 1) as nat;
        let r1 = (r - 1) as nat;
        let a = binomial(n1, r1);
        let b = binomial(n1, r);
        assert(binomial(n, r) == a + b);
        let fr1 = factorial(r1);
        let fr = factorial(r);
        let fn1 = factorial(n1);
        assert(fr == r * fr1);
        assert(factorial(n) == n * fn1);
        lemma_binomial_factorials(n1, r1);
        assert((n1 - r1) as nat == (n - r) as nat);
        let fnr = factorial((n - r) as nat);
        assert(a * fr1 * fnr == fn1);
        if r == n {
            lemma_binomial_zero_above(n1, r);
            assert(b == 0);
            assert(fnr == 1);
            assert((a + b) * fr * fnr == r * (a * fr1 * fnr)) by (nonlinear_arith)
                requires fr == r * fr1, fnr == 1, b == 0;
            assert(r * fn1 == n * fn1);
            assert(binomial(n, r) * fr * fnr == factorial(n));
        } else {
            lemma_binomial_factorials(n1, r);
            let fnr1 = factorial((n1 - r) as nat);
            assert(fnr == (n - r) * fnr1);
            assert(b * fr * fnr1 == fn1);
            assert((a + b) * fr * fnr == r * (a * fr1 * fnr) + (n - r) * (b * fr * fnr1)) by (nonlinear_arith)
                requires fr == r * fr1, fnr == (n - r) * fnr1, r <= n;
            assert(r * fn1 + (n - r) * fn1 == n * fn1) by (nonlinear_arith);
            assert(binomial(n, r) * fr * fnr == factorial(n));
        }
    }
}

/// Choosing `r` of `n` items is choosing the `n - r` left out.
pub proof fn lemma_binomial_symmetric(n: nat, r: nat)
    requires
        r <= n,
    ensures
        binomial(n, r) == binomial(n, (n - r) as nat),
{
    lemma_binomial_factorials(n, r);
    lemma_binomial_factorials(n, (n - r) as nat);
    let d = factorial(r) * factorial((n - r) as nat);
    lemma_factorial_grows(0, r);
    lemma_factorial_grows(0, (n - r) as nat);
    assert(d > 0) by (nonlinear_arith)
        requires factorial(r) >= 1, factorial((n - r) as nat) >= 1, d == factorial(r) * factorial((n - r) as nat);
    assert((n - (n - r)) as nat == r);
    assert(binomial(n, r) * d == binomial(n, (n - r) as nat) * d) by (nonlinear_arith)
        requires
            binomial(n, r) * factorial(r) * factorial((n - r) as nat) == factorial(n),
            binomial(n, (n - r) as nat) * factorial((n - r) as nat) * factorial(r) == factorial(n),
            d == factorial(r) * factorial((n - r) as nat);
    assert(binomial(n, r) == binomial(n, (n - r) as nat)) by (nonlinear_arith)
        requires binomial(n, r) * d == binomial(n, (n - r) as nat) * d, d > 0;
}

/// Computes `n!`.
pub fn factorial_u32(n: u32) -> (result: u32)
    requires
        factorial(n as nat) <= u32::MAX,
    ensures
        result == factorial(n as nat),
{
    assert(factorial(1) == 1) by {
        assert(factorial(0) == 1);
    }
    if n < 2 {
        assert(factorial(0) == 1);
        return 1;
    }
    let mut result: u32 = 1;
    let mut i: u32 = 1;
    while i < n
        invariant
            1 <= i <= n,
            result == factorial(i as nat),
            factorial(n as nat) <= u32::MAX,
        decreases n - i,
    {
        i = i + 1;
        proof {
            lemma_factorial_grows(i as nat, n as nat);
            assert(factorial(i as nat) == i * factorial((i - 1) as nat));
            assert(result * i == i * result) by (nonlinear_arith);
        }
        result = result * i;
    }
    result
}

/// Whether `n!` fits in a `u32`: exactly when `n <= 12`.
pub fn factorial_fits_u32(n: u32) -> (fits: bool)
    ensures
        fits == (factorial(n as nat) <= u32::MAX),
{
    proof {
        reveal_with_fuel(factorial, 14);
        assert(factorial(12) == 479001600);
        assert(factorial(13) == 6227020800);
        if n <= 12 {
            lemma_factorial_grows(n as nat, 12);
        } else {
            lemma_factorial_grows(13, n as nat);
        }
    }
    n <= 12
}

/// Computes `nCr`.
pub fn n_choose_r(n: u32, r: u32) -> (result: u32)
    requires
        r <= n,
        r == 0 || r == n || r == 1 || r == n - 1 || factorial(n as nat) <= u32::MAX,
    ensures
        result == binomial(n as nat, r as nat),
{
    proof {
        lemma_binomial_factorials(n as nat, r as nat);
        lemma_factorial_grows(0, r as nat);
        lemma_factorial_grows(0, (n - r) as nat);
    }
    if r == 0 || r == n {
        proof {
            if r == n {
                lemma_binomial_symmetric(n as nat, r as nat);
            }
        }
        return 1;
    }
    if r == 1 || r == n - 1 {
        proof {
            lemma_binomial_one(n as nat);
            if r == n - 1 {
                lemma_binomial_symmetric(n as nat, r as nat);
            }
        }
        return n;
    }
    proof {
        lemma_factorial_grows(r as nat, n as nat);
        lemma_factorial_grows((n - r) as nat, n as nat);
        assert(factorial(r as nat) * factorial((n - r) as nat) <= factorial(n as nat)) by (nonlinear_arith)
            requires
                binomial(n as nat, r as nat) * factorial(r as nat) * factorial((n - r) as nat) == factorial(n as nat),
                binomial(n as nat, r as nat) >= 1 || binomial(n as nat, r as nat) == 0,
                factorial(n as nat) >= 1;
    }
    let fnn = factorial_u32(n);
    let fr = factorial_u32(r);
    let fnr = factorial_u32(n - r);
    let d = fr * fnr;
    proof {
        assert(d > 0) by (nonlinear_arith) requires fr >= 1, fnr >= 1, d == fr * fnr;
        assert(fnn == binomial(n as nat, r as nat) * d) by (nonlinear_arith)
            requires
                binomial(n as nat, r as nat) * fr * fnr == fnn,
                d == fr * fnr;
        vstd::arithmetic::div_mod::lemma_div_multiples_vanish(binomial(n as nat, r as nat) as int, d as int);
        assert(binomial(n as nat, r as nat) * d == d * binomial(n as nat, r as nat)) by (nonlinear_arith);
    }
    fnn / d
}

/// There are `n` ways to choose one of `n` items.
pub proof fn lemma_binomial_one(n: nat)
    ensures
        binomial(n, 1) == n,
    decreases n,
{
    if n > 0 {
        lemma_binomial_one((n - 1) as nat);
        assert(binomial((n - 1) as nat, 0) == 1);
        assert(binomial(n, 1) == binomial((n - 1) as nat, 0) + binomial((n - 1) as nat, 1));
    }
}

/// Where a term `c * b^k` of a binomial expansion of `(a + bi)^n` goes,
/// with `k` the power of the imaginary part: `i^k` is `1`, `i`, `-1` or
/// `-i`.
#[derive(Clone, Copy, Debug, PartialEq, Eq, Structural)]
pub enum UnitPower {
    /// `i^k == 1`: added to the real part.
    PlusReal,
    /// `i^k == i`: added to the imaginary part.
    PlusImaginary,
    /// `i^k == -1`: subtracted from the real part.
    MinusReal,
    /// `i^k == -i`: subtracted from the imaginary part.
    MinusImaginary,
}

/// `i^k`, which repeats every four powers.
pub open spec fn unit_power(k: nat) -> UnitPower {
    let m = k % 4;
    if m == 0 {
        UnitPower::PlusReal
    } else if m == 1 {
        UnitPower::PlusImaginary
    } else if m == 2 {
        UnitPower::MinusReal
    } else {
        UnitPower::MinusImaginary
    }
}

/// The exponent (0 to 3) of `i` a unit power stands for.
pub open spec fn exponent(u: UnitPower) -> nat {
    match u {
        UnitPower::PlusReal => 0,
        UnitPower::PlusImaginary => 1,
        UnitPower::MinusReal => 2,
        UnitPower::MinusImaginary => 3,
    }
}

/// The product of two powers of `i`.
pub open spec fn unit_product(a: UnitPower, b: UnitPower) -> UnitPower {
    unit_power(exponent(a) + exponent(b))
}

/// Computes `i^k`.
pub fn imaginary_unit_power(k: u32) -> (u: UnitPower)
    ensures
        u == unit_power(k as nat),
{
    match k % 4 {
        0 => UnitPower::PlusReal,
        1 => UnitPower::PlusImaginary,
        2 => UnitPower::MinusReal,
        _ => UnitPower::MinusImaginary,
    }
}

/// `i^a * i^b == i^(a + b)`.
pub proof fn lemma_unit_power_adds(a: nat, b: nat)
    ensures
        unit_product(unit_power(a), unit_power(b)) == unit_power(a + b),
{
    assert(exponent(unit_power(a)) == a % 4);
    assert(exponent(unit_power(b)) == b % 4);
    vstd::arithmetic::div_mod::lemma_add_mod_noop(a as int, b as int, 4);
}

} // verus!
