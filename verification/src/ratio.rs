//! Exact fractions in lowest terms, so that two of them are the same number
//! exactly when they are the same pair.

use vstd::arithmetic::div_mod::{
    lemma_fundamental_div_mod, lemma_mod_multiples_basic, lemma_small_mod,
};
use vstd::prelude::*;

verus! {

/// Whether `k` divides `n`.
pub open spec fn divides(k: int, n: int) -> bool {
    n % k == 0
}

/// Whether no number but one divides both `a` and `b`.
pub open spec fn coprime(a: int, b: int) -> bool {
    forall|k: int| k > 0 && #[trigger] divides(k, a) && #[trigger] divides(k, b) ==> k == 1
}

/// The greatest number that divides both `a` and `b`, by Euclid.
pub open spec fn gcd(a: nat, b: nat) -> nat
    decreases b,
{
    if b == 0 {
        a
    } else {
        gcd(b, a % b)
    }
}

/// The fraction `num / den`.
#[derive(Clone, Copy, Debug, PartialEq, Eq, Structural)]
pub struct Ratio {
    pub num: u128,
    pub den: u128,
}

impl Ratio {
    /// Whether this fraction is the number `num / den`.
    pub open spec fn is(self, num: int, den: int) -> bool {
        self.num * den == num * self.den
    }

    /// Whether this fraction is in lowest terms.
    pub open spec fn lowest(self) -> bool {
        self.den > 0 && coprime(self.num as int, self.den as int)
    }

    /// The fraction `num / den` in lowest terms.
    pub fn new(num: u128, den: u128) -> (ratio: Ratio)
        requires
            den > 0,
        ensures
            ratio.is(num as int, den as int),
            ratio.lowest(),
    {
        let mut a: u128 = num;
        let mut b: u128 = den;
        while b != 0
            invariant
                gcd(a as nat, b as nat) == gcd(num as nat, den as nat),
            decreases b,
        {
            let rest: u128 = a % b;
            a = b;
            b = rest;
        }
        proof {
            lemma_gcd_divides(num as nat, den as nat);
            lemma_reduced(num as int, den as int, a as int);
        }
        Ratio { num: num / a, den: den / a }
    }

    /// Two fractions in lowest terms that are the same number are the same
    /// fraction.
    pub proof fn law_lowest_terms_are_unique(self, other: Ratio)
        requires
            self.lowest(),
            other.lowest(),
            self.is(other.num as int, other.den as int),
        ensures
            self == other,
    {
        let (n, d) = (self.num as int, self.den as int);
        let (p, q) = (other.num as int, other.den as int);
        lemma_lowest_is_least(n, d, p, q);
        lemma_lowest_is_least(p, q, n, d);
        assert(n == p) by (nonlinear_arith)
            requires
                n * q == p * d,
                d == q,
                d > 0,
        ;
    }
}

impl Ratio {
    /// Fractions in lowest terms that are found from equal quotients are the
    /// same fraction.
    pub proof fn law_equal_quotients_are_one_ratio(
        self,
        num: int,
        den: int,
        other: Ratio,
        other_num: int,
        other_den: int,
    )
        requires
            self.lowest(),
            other.lowest(),
            den > 0,
            other_den > 0,
            self.is(num, den),
            other.is(other_num, other_den),
            num * other_den == other_num * den,
        ensures
            self == other,
    {
        let (a, b) = (self.num as int, self.den as int);
        let (c, d) = (other.num as int, other.den as int);
        let (n, m, p, q) = (num, den, other_num, other_den);
        let scale = m * q;
        assert(scale > 0) by (nonlinear_arith)
            requires
                scale == m * q,
                m > 0,
                q > 0,
        ;
        assert((a * d) * scale == (a * m) * (d * q)) by (nonlinear_arith)
            requires
                scale == m * q,
        ;
        assert((c * b) * scale == (c * q) * (b * m)) by (nonlinear_arith)
            requires
                scale == m * q,
        ;
        assert((n * b) * (d * q) == (n * q) * (b * d)) by (nonlinear_arith);
        assert((p * d) * (b * m) == (p * m) * (b * d)) by (nonlinear_arith);
        assert(a * d == c * b) by (nonlinear_arith)
            requires
                (a * d) * scale == (c * b) * scale,
                scale > 0,
        ;
        self.law_lowest_terms_are_unique(other);
    }
}

/// Zero and one are in lowest terms over one.
pub proof fn lemma_zero_and_one_are_lowest()
    ensures
        (Ratio { num: 0, den: 1 }).lowest(),
        (Ratio { num: 1, den: 1 }).lowest(),
{
    assert forall|k: int| k > 0 && #[trigger] divides(k, 1) implies k == 1 by {
        if k > 1 {
            lemma_small_mod(1, k as nat);
        }
    }
}

/// What divides a number is that number's factor.
proof fn lemma_factor(k: int, n: int)
    requires
        k > 0,
        divides(k, n),
    ensures
        n == k * (n / k),
{
    lemma_fundamental_div_mod(n, k);
}

/// Euclid's number divides both that it was found from.
proof fn lemma_gcd_divides(a: nat, b: nat)
    requires
        a > 0 || b > 0,
    ensures
        gcd(a, b) > 0,
        divides(gcd(a, b) as int, a as int),
        divides(gcd(a, b) as int, b as int),
    decreases b,
{
    let g = gcd(a, b) as int;
    if b == 0 {
        lemma_mod_multiples_basic(1, g);
        lemma_mod_multiples_basic(0, g);
    } else {
        lemma_gcd_divides(b, a % b);
        lemma_factor(g, b as int);
        lemma_factor(g, (a % b) as int);
        lemma_fundamental_div_mod(a as int, b as int);
        let (u, v, w) = (b as int / g, (a % b) as int / g, a as int / (b as int));
        assert(a == (u * w + v) * g) by (nonlinear_arith)
            requires
                a == b * w + a % b,
                b == g * u,
                a % b == g * v,
        ;
        lemma_mod_multiples_basic(u * w + v, g);
    }
}

/// Euclid's number is a sum of multiples of the two it was found from: the two
/// factors.
proof fn lemma_bezout(a: nat, b: nat) -> (factors: (int, int))
    ensures
        factors.0 * a + factors.1 * b == gcd(a, b),
    decreases b,
{
    if b == 0 {
        (1, 0)
    } else {
        let (x, y) = lemma_bezout(b, a % b);
        let w = a as int / (b as int);
        lemma_fundamental_div_mod(a as int, b as int);
        assert(y * a + (x - y * w) * b == x * b + y * (a % b)) by (nonlinear_arith)
            requires
                a == b * w + a % b,
        ;
        (y, x - y * w)
    }
}

/// Dividing both sides of a fraction by Euclid's number leaves the same number
/// in lowest terms.
proof fn lemma_reduced(num: int, den: int, g: int)
    requires
        0 <= num,
        0 < den,
        g == gcd(num as nat, den as nat),
    ensures
        g > 0,
        den / g > 0,
        (num / g) * den == num * (den / g),
        coprime(num / g, den / g),
{
    lemma_gcd_divides(num as nat, den as nat);
    lemma_factor(g, num);
    lemma_factor(g, den);
    let (n, d) = (num / g, den / g);
    let (x, y) = lemma_bezout(num as nat, den as nat);
    assert(d > 0) by (nonlinear_arith)
        requires
            den == g * d,
            den > 0,
            g > 0,
    ;
    assert(n * den == num * d) by (nonlinear_arith)
        requires
            num == g * n,
            den == g * d,
    ;
    assert(x * n + y * d == 1) by (nonlinear_arith)
        requires
            x * num + y * den == g,
            num == g * n,
            den == g * d,
            g > 0,
    ;
    assert forall|k: int| k > 0 && #[trigger] divides(k, n) && #[trigger] divides(k, d) implies k
        == 1 by {
        lemma_factor(k, n);
        lemma_factor(k, d);
        let (u, v) = (n / k, d / k);
        let w = x * u + y * v;
        assert(k * w == 1) by (nonlinear_arith)
            requires
                x * n + y * d == 1,
                n == k * u,
                d == k * v,
                w == x * u + y * v,
        ;
        assert(k == 1) by (nonlinear_arith)
            requires
                k * w == 1,
                k > 0,
        ;
    }
}

/// No fraction that is the same number as one in lowest terms has a smaller
/// denominator.
proof fn lemma_lowest_is_least(n: int, d: int, p: int, q: int)
    requires
        0 <= n,
        0 < d,
        0 < q,
        coprime(n, d),
        n * q == p * d,
    ensures
        d <= q,
{
    lemma_gcd_divides(n as nat, d as nat);
    let g = gcd(n as nat, d as nat) as int;
    assert(divides(g, n) && divides(g, d));
    let (x, y) = lemma_bezout(n as nat, d as nat);
    let t = x * p + y * q;
    assert(q == d * t) by (nonlinear_arith)
        requires
            x * n + y * d == 1,
            n * q == p * d,
            t == x * p + y * q,
    ;
    assert(d <= q) by (nonlinear_arith)
        requires
            q == d * t,
            0 < d,
            0 < q,
    ;
}

/// A fraction found for `num / den` is that number, and no number above one
/// divides both its sides.
pub proof fn law_a_fraction_is_its_quotient(ratio: Ratio, num: int, den: int, k: int)
    requires
        ratio.is(num, den),
        ratio.lowest(),
    ensures
        ratio.den > 0,
        ratio.num * den == num * ratio.den,
        k > 1 ==> !(ratio.num as int % k == 0 && ratio.den as int % k == 0),
{
    assert(divides(k, ratio.num as int) == (ratio.num as int % k == 0));
    assert(divides(k, ratio.den as int) == (ratio.den as int % k == 0));
}

} // verus!
