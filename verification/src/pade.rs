//! The coefficients of the diagonal Padé approximant of the exponential,
//! as exact ratios of factorials.
use vstd::prelude::*;
use factorial::Factorial;

verus! {

/// `n!`.
pub open spec fn fact(n: nat) -> nat
    decreases n,
{
    if n == 0 {
        1
    } else {
        n * fact((n - 1) as nat)
    }
}

/// Numerator of the `k`-th coefficient of the degree-`m` diagonal Padé
/// approximant of `exp`: `(2m - k)! * m!`.
pub open spec fn pade_numer(m: nat, k: nat) -> nat {
    fact((2 * m - k) as nat) * fact(m)
}

/// Denominator of the same coefficient: `(2m)! * k! * (m - k)!`.
pub open spec fn pade_denom(m: nat, k: nat) -> nat {
    fact(2 * m) * fact(k) * fact((m - k) as nat)
}

/// The inputs on which both terms can be computed in `usize` without
/// underflow or overflow.
pub open spec fn pade_terms_fit(m: nat, k: nat) -> bool {
    &&& k <= m
    &&& 2 * m <= usize::MAX
    &&& pade_numer(m, k) <= usize::MAX
    &&& pade_denom(m, k) <= usize::MAX
}

/// Every factorial is at least one.
pub proof fn lemma_fact_positive(n: nat)
    ensures
        fact(n) >= 1,
    decreases n,
{
    if n > 0 {
        lemma_fact_positive((n - 1) as nat);
        assert(n * fact((n - 1) as nat) >= 1) by (nonlinear_arith)
            requires
                n >= 1,
                fact((n - 1) as nat) >= 1,
        ;
    }
}

/// `0! = 1` and `(n + 1)! = (n + 1) * n!`.
pub proof fn lemma_fact_recurrence(n: nat)
    ensures
        fact(0) == 1,
        fact(n + 1) == (n + 1) * fact(n),
{
    assert((n + 1 - 1) as nat == n);
}

/// `n <= n!`.
pub proof fn lemma_le_fact(n: nat)
    ensures
        n <= fact(n),
{
    if n > 0 {
        lemma_fact_positive((n - 1) as nat);
        assert(n <= n * fact((n - 1) as nat)) by (nonlinear_arith)
            requires
                fact((n - 1) as nat) >= 1,
        ;
    }
}

/// `n!` grows with `n`.
pub proof fn lemma_fact_monotone(a: nat, b: nat)
    requires
        a <= b,
    ensures
        fact(a) <= fact(b),
    decreases b,
{
    if a < b {
        lemma_fact_monotone(a, (b - 1) as nat);
        lemma_fact_positive((b - 1) as nat);
        assert(fact((b - 1) as nat) <= b * fact((b - 1) as nat)) by (nonlinear_arith)
            requires
                b >= 1,
        ;
    }
}

/// `21!` does not fit in `usize`.
proof fn lemma_fact_21_too_large()
    ensures
        fact(21) > usize::MAX,
{
    reveal_with_fuel(fact, 22);
    assert(fact(21) == 51090942171709440000);
}

/// The terms are the factorial products that name them.
pub proof fn lemma_pade_terms_are_factorials(m: nat, k: nat)
    ensures
        pade_numer(m, k) == fact((2 * m - k) as nat) * fact(m),
        pade_denom(m, k) == fact(2 * m) * fact(k) * fact((m - k) as nat),
{
}

/// The terms can be computed exactly when `k <= m` and both factorial
/// products fit in `usize`; nothing else is asked.
pub proof fn lemma_pade_terms_fit_exactly(m: nat, k: nat)
    ensures
        pade_terms_fit(m, k) <==> (k <= m && fact((2 * m - k) as nat) * fact(m) <= usize::MAX && fact(2
            * m) * fact(k) * fact((m - k) as nat) <= usize::MAX),
{
    if k <= m && fact(2 * m) * fact(k) * fact((m - k) as nat) <= usize::MAX {
        let c = fact(2 * m);
        let d = fact(k);
        let e = fact((m - k) as nat);
        lemma_le_fact(2 * m);
        lemma_fact_positive(k);
        lemma_fact_positive((m - k) as nat);
        assert(c <= c * d * e) by (nonlinear_arith)
            requires
                d >= 1,
                e >= 1,
                c >= 0,
        ;
    }
}

/// A factor of a product of positive integers is no larger than the product.
proof fn lemma_factor_le_product(a: nat, b: nat)
    requires
        b >= 1,
    ensures
        a <= a * b,
        a <= b * a,
{
    assert(a <= a * b && a <= b * a) by (nonlinear_arith)
        requires
            b >= 1,
    ;
}

/// `n!` for `n` whose factorial fits in `usize`, by
/// `factorial::Factorial::factorial`, which panics on overflow (ruled out
/// by `requires`); the contract claims that it returns `n!` exactly.
#[verifier::external_body]
fn factorial_of(n: usize) -> (r: usize)
    requires
        fact(n as nat) <= usize::MAX,
    ensures
        r == fact(n as nat),
{
    n.factorial()
}

/// `n!` if it fits in `usize`, by
/// `factorial::Factorial::checked_factorial`; the contract claims `None`
/// exactly when `n!` does not fit.  Below 129 the crate works from its
/// tables without a prime sieve; larger `n` would build a sieve of size `n`,
/// which `requires` rules out.
#[verifier::external_body]
fn checked_factorial_of(n: usize) -> (r: Option<usize>)
    requires
        n < 129,
    ensures
        match r {
            Some(v) => v == fact(n as nat),
            None => fact(n as nat) > usize::MAX,
        },
{
    n.checked_factorial()
}

/// The numerator and denominator of the `k`-th Padé coefficient of degree
/// `m`, computed as products of factorials.
pub fn pade_coeff_terms(m: usize, k: usize) -> (r: (usize, usize))
    requires
        pade_terms_fit(m as nat, k as nat),
    ensures
        r.0 == pade_numer(m as nat, k as nat),
        r.1 == pade_denom(m as nat, k as nat),
        r.0 == fact((2 * m - k) as nat) * fact(m as nat),
        r.1 == fact(2 * m as nat) * fact(k as nat) * fact((m - k) as nat),
{
    let two_m: usize = 2 * m;
    proof {
        let a = fact((two_m - k) as nat);
        let b = fact(m as nat);
        let c = fact(two_m as nat);
        let d = fact(k as nat);
        let e = fact((m - k) as nat);
        lemma_fact_positive((two_m - k) as nat);
        lemma_fact_positive(m as nat);
        lemma_fact_positive(two_m as nat);
        lemma_fact_positive(k as nat);
        lemma_fact_positive((m - k) as nat);
        lemma_factor_le_product(a, b);
        lemma_factor_le_product(b, a);
        lemma_factor_le_product(c, d);
        lemma_factor_le_product(d, c);
        lemma_factor_le_product(c * d, e);
        lemma_factor_le_product(e, c * d);
    }
    let num: usize = factorial_of(two_m - k) * factorial_of(m);
    let cd: usize = factorial_of(two_m) * factorial_of(k);
    let dem: usize = cd * factorial_of(m - k);
    (num, dem)
}

/// The same terms, or `None` exactly when they cannot be computed in
/// `usize`.
pub fn checked_pade_coeff_terms(m: usize, k: usize) -> (r: Option<(usize, usize)>)
    ensures
        r is Some <==> pade_terms_fit(m as nat, k as nat),
        r matches Some(t) ==> t.0 == pade_numer(m as nat, k as nat) && t.1 == pade_denom(
            m as nat,
            k as nat,
        ),        r is Some <==> (k <= m && fact((2 * m - k) as nat) * fact(m as nat) <= usize::MAX && fact(
            2 * m as nat,
        ) * fact(k as nat) * fact((m - k) as nat) <= usize::MAX),
        r matches Some(t) ==> t.0 == fact((2 * m - k) as nat) * fact(m as nat) && t.1 == fact(
            2 * m as nat,
        ) * fact(k as nat) * fact((m - k) as nat),
{
    proof {
        lemma_pade_terms_fit_exactly(m as nat, k as nat);
    }

    if k > m {
        return None;
    }
    if m > 20 {
        proof {
            lemma_fact_21_too_large();
            lemma_fact_monotone(21, m as nat);
            lemma_fact_positive((2 * m - k) as nat);
            lemma_factor_le_product(fact(m as nat), fact((2 * m - k) as nat));
        }
        return None;
    }
    let two_m: usize = 2 * m;
    let ghost a = fact((two_m - k) as nat);
    let ghost b = fact(m as nat);
    let ghost c = fact(two_m as nat);
    let ghost d = fact(k as nat);
    let ghost e = fact((m - k) as nat);
    proof {
        lemma_fact_positive((two_m - k) as nat);
        lemma_fact_positive(m as nat);
        lemma_fact_positive(two_m as nat);
        lemma_fact_positive(k as nat);
        lemma_fact_positive((m - k) as nat);
        lemma_factor_le_product(a, b);
        lemma_factor_le_product(b, a);
        lemma_factor_le_product(c, d);
        lemma_factor_le_product(d, c);
        lemma_factor_le_product(c * d, e);
        lemma_factor_le_product(e, c * d);
        assert(pade_numer(m as nat, k as nat) == a * b);
        assert(pade_denom(m as nat, k as nat) == c * d * e);
    }
    let fa: usize = match checked_factorial_of(two_m - k) {
        Some(v) => v,
        None => return None,
    };
    let fb: usize = match checked_factorial_of(m) {
        Some(v) => v,
        None => return None,
    };
    let num: usize = match fa.checked_mul(fb) {
        Some(v) => v,
        None => return None,
    };
    let fc: usize = match checked_factorial_of(two_m) {
        Some(v) => v,
        None => return None,
    };
    let fd: usize = match checked_factorial_of(k) {
        Some(v) => v,
        None => return None,
    };
    let fe: usize = match checked_factorial_of(m - k) {
        Some(v) => v,
        None => return None,
    };
    let cd: usize = match fc.checked_mul(fd) {
        Some(v) => v,
        None => return None,
    };
    let dem: usize = match cd.checked_mul(fe) {
        Some(v) => v,
        None => return None,
    };
    Some((num, dem))
}

/// The leading coefficient of the approximant is one: its numerator and
/// denominator are equal.
pub proof fn lemma_pade_leading_coefficient(m: nat)
    ensures
        pade_numer(m, 0) == pade_denom(m, 0),
{
    assert(fact(0) == 1);
    assert((2 * m - 0) as nat == 2 * m);
    assert((m - 0) as nat == m);
}

/// Both terms are positive, so every coefficient is a positive rational.
pub proof fn lemma_pade_terms_positive(m: nat, k: nat)
    requires
        k <= m,
    ensures
        pade_numer(m, k) > 0,
        pade_denom(m, k) > 0,
{
    let a = fact((2 * m - k) as nat);
    let b = fact(m);
    let c = fact(2 * m);
    let d = fact(k);
    let e = fact((m - k) as nat);
    lemma_fact_positive((2 * m - k) as nat);
    lemma_fact_positive(m);
    lemma_fact_positive(2 * m);
    lemma_fact_positive(k);
    lemma_fact_positive((m - k) as nat);
    assert(a * b > 0 && c * d * e > 0) by (nonlinear_arith)
        requires
            a >= 1,
            b >= 1,
            c >= 1,
            d >= 1,
            e >= 1,
    ;
}

/// Consecutive coefficients are related by
/// `c(k + 1) = c(k) * (m - k) / ((2m - k) * (k + 1))`: the numerator
/// loses the factor `2m - k` and the denominator trades `m - k` for `k + 1`.
pub proof fn lemma_pade_coefficient_step(m: nat, k: nat)
    requires
        k < m,
    ensures
        pade_numer(m, k + 1) * (2 * m - k) == pade_numer(m, k),
        pade_denom(m, k + 1) * (m - k) == pade_denom(m, k) * (k + 1),
{
    let n1 = (2 * m - k) as nat;
    let r1 = (m - k) as nat;
    assert(fact(n1) == n1 * fact((n1 - 1) as nat));
    assert((n1 - 1) as nat == (2 * m - (k + 1)) as nat);
    assert(fact(r1) == r1 * fact((r1 - 1) as nat));
    assert((r1 - 1) as nat == (m - (k + 1)) as nat);
    assert(fact(k + 1) == (k + 1) * fact(k));
    let a = fact((n1 - 1) as nat);
    let b = fact(m);
    let c = fact(2 * m);
    let d = fact(k);
    let e = fact((r1 - 1) as nat);
    assert(a * b * n1 == (n1 * a) * b) by (nonlinear_arith);
    assert(c * ((k + 1) * d) * e * r1 == c * d * (r1 * e) * (k + 1)) by (nonlinear_arith);
}

} // verus!
