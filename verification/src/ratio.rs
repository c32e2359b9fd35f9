//! Exact rational numbers, kept in lowest terms.

use vstd::arithmetic::div_mod::lemma_fundamental_div_mod;
use vstd::math::abs;
use vstd::prelude::*;

verus! {

/// The greatest common divisor, by Euclid's algorithm.
pub open spec fn gcd(a: nat, b: nat) -> nat
    decreases b,
{
    if b == 0 {
        a
    } else {
        gcd(b, a % b)
    }
}

/// The real number `n / d`.
#[verifier::inline]
pub open spec fn quotient(n: int, d: int) -> real {
    n as real / d as real
}

/// `x` times `d` is `n`: for a `d` other than zero, `x` is `n / d`.
pub open spec fn is_quotient(x: real, n: int, d: int) -> bool {
    x * d as real == n as real
}

/// `x` is the quotient of two 64-bit integers, the second one positive: a
/// [`Ratio`] can hold it.
pub open spec fn representable(x: real) -> bool {
    exists|n: int, d: int|
        i64::MIN <= n <= i64::MAX && 0 < d <= i64::MAX && #[trigger] is_quotient(x, n, d)
}

/// Two quotients are equal exactly when their cross products are.
pub proof fn lemma_quotient_eq(n: int, d: int, m: int, e: int)
    requires
        d > 0,
        e > 0,
    ensures
        quotient(n, d) == quotient(m, e) <==> n * e == m * d,
        is_quotient(quotient(n, d), m, e) <==> n * e == m * d,
{
    assert((n as real / d as real == m as real / e as real) <==> n * e == m * d)
        by (nonlinear_arith)
        requires
            d > 0,
            e > 0,
    ;
    assert(((n as real / d as real) * e as real == m as real) <==> n * e == m * d)
        by (nonlinear_arith)
        requires
            d > 0,
            e > 0,
    ;
}

/// Changing the sign of both parts leaves a quotient unchanged.
proof fn lemma_quotient_negated(n: int, d: int)
    requires
        d != 0,
    ensures
        quotient(-n, -d) == quotient(n, d),
{
    assert((-n) as real / (-d) as real == n as real / d as real) by (nonlinear_arith)
        requires
            d != 0,
    ;
}

/// The gcd divides both of its arguments: the result holds the two cofactors.
proof fn lemma_gcd_cofactors(a: nat, b: nat) -> (k: (nat, nat))
    ensures
        a == k.0 * gcd(a, b),
        b == k.1 * gcd(a, b),
    decreases b,
{
    if b == 0 {
        (1, 0)
    } else {
        let g = gcd(a, b);
        let q = a / b;
        let r = a % b;
        let (u, v) = lemma_gcd_cofactors(b, r);
        lemma_fundamental_div_mod(a as int, b as int);
        assert(a == (u * q + v) * g) by (nonlinear_arith)
            requires
                a == b * q + r,
                b == u * g,
                r == v * g,
        ;
        (u * q + v, u)
    }
}

/// Bézout's identity: the gcd is an integer combination of its arguments.
proof fn lemma_bezout(a: nat, b: nat) -> (c: (int, int))
    ensures
        a * c.0 + b * c.1 == gcd(a, b),
    decreases b,
{
    if b == 0 {
        (1, 0)
    } else {
        let g = gcd(a, b);
        let q = a / b;
        let r = a % b;
        let (x, y) = lemma_bezout(b, r);
        lemma_fundamental_div_mod(a as int, b as int);
        assert(a * y + b * (x - q * y) == g) by (nonlinear_arith)
            requires
                a == b * q + r,
                b * x + r * y == g,
        ;
        (y, x - q * y)
    }
}

/// The gcd of two numbers that are not both zero is positive.
proof fn lemma_gcd_positive(a: nat, b: nat)
    requires
        a > 0 || b > 0,
    ensures
        gcd(a, b) > 0,
    decreases b,
{
    if b != 0 {
        lemma_gcd_positive(b, a % b);
    }
}

/// Dividing two numbers by their gcd leaves coprime numbers.
proof fn lemma_cofactors_coprime(a: nat, b: nat, u: nat, v: nat)
    requires
        b > 0,
        a == u * gcd(a, b),
        b == v * gcd(a, b),
    ensures
        gcd(u, v) == 1,
{
    let g = gcd(a, b);
    lemma_gcd_positive(a, b);
    let (x, y) = lemma_bezout(a, b);
    assert(u * x + v * y == 1) by (nonlinear_arith)
        requires
            g > 0,
            a * x + b * y == g,
            a == u * g,
            b == v * g,
    ;
    let h = gcd(u, v);
    let (p, q) = lemma_gcd_cofactors(u, v);
    let k = p * x + q * y;
    assert(h * k == 1) by (nonlinear_arith)
        requires
            u * x + v * y == 1,
            u == p * h,
            v == q * h,
            k == p * x + q * y,
    ;
    assert(h == 1) by (nonlinear_arith)
        requires
            h * k == 1,
            h >= 0,
    ;
}

/// Where `a` and `b` are coprime and `a * c` is a multiple of `b`, `c` is one
/// too: the result is the cofactor.
proof fn lemma_coprime_cancel(a: nat, b: nat, c: int, m: int) -> (t: int)
    requires
        gcd(a, b) == 1,
        a * c == b * m,
    ensures
        c == b * t,
{
    let (x, y) = lemma_bezout(a, b);
    let t = m * x + c * y;
    assert(c == b * t) by (nonlinear_arith)
        requires
            a * x + b * y == 1,
            a * c == b * m,
            t == m * x + c * y,
    ;
    t
}

/// A fraction that equals one in lowest terms is a positive multiple of it:
/// the result is the common factor.
proof fn lemma_lowest_terms_least(n: int, d: int, m: int, e: int) -> (t: int)
    requires
        d > 0,
        e > 0,
        gcd(abs(n), d as nat) == 1,
        m * d == n * e,
    ensures
        t >= 1,
        e == d * t,
        m == n * t,
{
    let w = if n >= 0 {
        m
    } else {
        -m
    };
    assert(abs(n) * e == d * w) by (nonlinear_arith)
        requires
            m * d == n * e,
            w == if n >= 0 {
                m
            } else {
                -m
            },
            abs(n) == if n >= 0 {
                n
            } else {
                -n
            },
    ;
    let t = lemma_coprime_cancel(abs(n), d as nat, e, w);
    assert(t >= 1 && m == n * t) by (nonlinear_arith)
        requires
            d > 0,
            e > 0,
            e == d * t,
            m * d == n * e,
    ;
    t
}

/// Two fractions in lowest terms with the same value have the same parts.
pub proof fn lemma_lowest_terms_unique(n: int, d: int, m: int, e: int)
    requires
        d > 0,
        e > 0,
        gcd(abs(n), d as nat) == 1,
        gcd(abs(m), e as nat) == 1,
        quotient(n, d) == quotient(m, e),
    ensures
        n == m,
        d == e,
{
    lemma_quotient_eq(n, d, m, e);
    let t = lemma_lowest_terms_least(n, d, m, e);
    let s = lemma_lowest_terms_least(m, e, n, d);
    assert(d == e && n == m) by (nonlinear_arith)
        requires
            d > 0,
            e > 0,
            t >= 1,
            s >= 1,
            e == d * t,
            d == e * s,
            m == n * t,
    ;
}

/// A fraction in lowest terms with a part out of range has a value that no
/// [`Ratio`] can hold.
proof fn lemma_out_of_range(n: int, d: int)
    requires
        d > 0,
        gcd(abs(n), d as nat) == 1,
        !(i64::MIN <= n <= i64::MAX && d <= i64::MAX),
    ensures
        !representable(quotient(n, d)),
{
    assert forall|m: int, e: int|
        i64::MIN <= m <= i64::MAX && 0 < e <= i64::MAX implies !#[trigger] is_quotient(
        quotient(n, d),
        m,
        e,
    ) by {
        if is_quotient(quotient(n, d), m, e) {
            lemma_quotient_eq(n, d, m, e);
            let t = lemma_lowest_terms_least(n, d, m, e);
            assert(e >= d && (n >= 0 ==> m >= n) && (n <= 0 ==> m <= n)) by (nonlinear_arith)
                requires
                    t >= 1,
                    d > 0,
                    e == d * t,
                    m == n * t,
            ;
        }
    }
}

/// An exact rational number.
///
/// The denominator is positive and has no factor in common with the
/// numerator, so equal numbers are equal values of this type.
#[derive(Clone, Copy, Debug, PartialEq, Eq, Structural)]
pub struct Ratio {
    numer: i64,
    denom: i64,
}

impl View for Ratio {
    type V = real;

    open spec fn view(&self) -> real {
        quotient(self.numerator(), self.denominator())
    }
}

fn gcd_u128(a: u128, b: u128) -> (g: u128)
    ensures
        g == gcd(a as nat, b as nat),
{
    let mut x: u128 = a;
    let mut y: u128 = b;
    while y != 0
        invariant
            gcd(x as nat, y as nat) == gcd(a as nat, b as nat),
        decreases y,
    {
        let r: u128 = x % y;
        x = y;
        y = r;
    }
    x
}

impl Ratio {
    #[verifier::type_invariant]
    spec fn inv(&self) -> bool {
        &&& self.denom > 0
        &&& gcd(abs(self.numer as int), self.denom as nat) == 1
    }

    /// The numerator of the fraction.
    pub closed spec fn numerator(&self) -> int {
        self.numer as int
    }

    /// The denominator of the fraction.
    pub closed spec fn denominator(&self) -> int {
        self.denom as int
    }

    /// The fraction `n / d` in lowest terms, where 64 bits hold its parts.
    pub(crate) fn lowest_terms(n: i128, d: i128) -> (out: Option<Ratio>)
        requires
            d > 0,
            n > i128::MIN,
        ensures
            out matches Some(r) ==> r@ == quotient(n as int, d as int),
            out is None <==> !representable(quotient(n as int, d as int)),
    {
        let a: u128 = if n < 0 {
            (-n) as u128
        } else {
            n as u128
        };
        let b: u128 = d as u128;
        let g: u128 = gcd_u128(a, b);
        let ghost (u, v) = lemma_gcd_cofactors(a as nat, b as nat);
        proof {
            lemma_gcd_positive(a as nat, b as nat);
            lemma_cofactors_coprime(a as nat, b as nat, u, v);
        }
        let n0: u128 = a / g;
        let d0: u128 = b / g;
        assert(n0 == u && d0 == v) by (nonlinear_arith)
            requires
                g > 0,
                a == u * g,
                b == v * g,
                n0 == a as int / g as int,
                d0 == b as int / g as int,
        ;
        let ghost s: int = if n < 0 {
            -(u as int)
        } else {
            u as int
        };
        proof {
            assert(abs(s) == u);
            assert(v > 0) by (nonlinear_arith)
                requires
                    b > 0,
                    b == v * g,
                    g > 0,
            ;
            assert(s * d == n * v) by (nonlinear_arith)
                requires
                    a == u * g,
                    d == v * g,
                    s == if n < 0 {
                        -(u as int)
                    } else {
                        u as int
                    },
                    a == if n < 0 {
                        -n
                    } else {
                        n as int
                    },
            ;
            lemma_quotient_eq(s, v as int, n as int, d as int);
            lemma_quotient_eq(n as int, d as int, s, v as int);
        }
        if d0 > 0x7fff_ffff_ffff_ffff || n0 > 0x8000_0000_0000_0000 || (n >= 0 && n0
            == 0x8000_0000_0000_0000) {
            proof {
                lemma_out_of_range(s, v as int);
            }
            None
        } else {
            let numer: i64 = if n < 0 {
                (-(n0 as i128)) as i64
            } else {
                n0 as i64
            };
            Some(Ratio { numer, denom: d0 as i64 })
        }
    }

    /// The ratio `numer / denom`, where the denominator is not zero and 64
    /// bits hold the parts of the fraction in lowest terms.
    pub fn new(numer: i64, denom: i64) -> (out: Option<Ratio>)
        ensures
            out matches Some(r) ==> r@ == quotient(numer as int, denom as int),
            out is Some <==> denom != 0 && representable(quotient(numer as int, denom as int)),
    {
        if denom == 0 {
            None
        } else if denom < 0 {
            proof {
                lemma_quotient_negated(numer as int, denom as int);
            }
            Ratio::lowest_terms(-(numer as i128), -(denom as i128))
        } else {
            Ratio::lowest_terms(numer as i128, denom as i128)
        }
    }

    /// The whole number `n`.
    pub fn from_integer(n: i64) -> (r: Ratio)
        ensures
            r@ == n as real,
    {
        proof {
            reveal_with_fuel(gcd, 3);
        }
        let r = Ratio { numer: n, denom: 1 };
        assert(r@ == n as real) by {
            assert(n as real / 1int as real == n as real) by (nonlinear_arith);
        }
        r
    }

    /// The numerator of the fraction in lowest terms.
    pub fn numer(&self) -> (n: i64)
        ensures
            n == self.numerator(),
            self.denominator() > 0,
            gcd(abs(self.numerator()), self.denominator() as nat) == 1,
    {
        proof {
            use_type_invariant(self);
        }
        self.numer
    }

    /// The denominator of the fraction in lowest terms; it is positive.
    pub fn denom(&self) -> (d: i64)
        ensures
            d == self.denominator(),
            d > 0,
            gcd(abs(self.numerator()), self.denominator() as nat) == 1,
    {
        proof {
            use_type_invariant(self);
        }
        self.denom
    }
}

} // verus!
