//! Integer arithmetic used in contracts: truncating division, greatest common
//! divisor, least common multiple, and the facts about them that the
//! rational arithmetic rests on.

use vstd::prelude::*;

verus! {

/// Absolute value.
pub open spec fn abs(a: int) -> int {
    if a < 0 {
        -a
    } else {
        a
    }
}

/// Quotient rounded toward zero.
pub open spec fn trunc_div(a: int, b: int) -> int
    recommends
        b != 0,
{
    if (a >= 0) == (b > 0) {
        abs(a) / abs(b)
    } else {
        -(abs(a) / abs(b))
    }
}

/// Remainder that goes with [`trunc_div`]; it has the sign of the dividend.
pub open spec fn trunc_rem(a: int, b: int) -> int
    recommends
        b != 0,
{
    a - b * trunc_div(a, b)
}

/// `d` divides `a`.
pub open spec fn divides(d: int, a: int) -> bool {
    exists|k: int| a == #[trigger] (d * k)
}

/// Greatest common divisor of two naturals, by Euclid's recursion.
pub open spec fn gcd_nat(a: nat, b: nat) -> nat
    decreases b,
{
    if b == 0 {
        a
    } else {
        gcd_nat(b, a % b)
    }
}

/// Greatest common divisor of two integers; never negative, and 0 only for
/// `gcd(0, 0)`.
pub open spec fn gcd(a: int, b: int) -> int {
    gcd_nat(abs(a) as nat, abs(b) as nat) as int
}

/// Least common multiple of two integers; never negative, and 0 if either is 0.
pub open spec fn lcm(a: int, b: int) -> int {
    if a == 0 && b == 0 {
        0
    } else {
        abs(a) / gcd(a, b) * abs(b)
    }
}

/// `base` raised to `exp`.
pub open spec fn pow(base: int, exp: nat) -> int
    decreases exp,
{
    if exp == 0 {
        1
    } else {
        base * pow(base, (exp - 1) as nat)
    }
}

/// The powers of 0, 1 and -1: 0 for a positive exponent, 1, and 1 or -1 as
/// the exponent is even or odd.
pub proof fn lemma_pow_of_unit(base: int, exp: nat)
    requires
        -1 <= base <= 1,
    ensures
        base == 0 && exp > 0 ==> pow(base, exp) == 0,
        base == 1 ==> pow(base, exp) == 1,
        base == -1 ==> pow(base, exp) == (if exp % 2 == 0 {
            1int
        } else {
            -1int
        }),
    decreases exp,
{
    if exp > 0 {
        lemma_pow_of_unit(base, (exp - 1) as nat);
    }
}

pub proof fn lemma_divides_witness(d: int, k: int)
    ensures
        divides(d, d * k),
{
}

pub proof fn lemma_mod_divides(a: int, b: int, c: int)
    requires
        b > 0,
        a >= 0,
        divides(c, a),
        divides(c, b),
    ensures
        divides(c, a % b),
{
    let ka = choose|k: int| a == #[trigger] (c * k);
    let kb = choose|k: int| b == #[trigger] (c * k);
    let q = a / b;
    assert(a == b * q + a % b) by {
        vstd::arithmetic::div_mod::lemma_fundamental_div_mod(a, b);
    }
    assert(a % b == c * (ka - kb * q)) by (nonlinear_arith)
        requires
            a == c * ka,
            b == c * kb,
            a == b * q + a % b,
    ;
    lemma_divides_witness(c, ka - kb * q);
}

pub proof fn lemma_divides_from_mod(a: int, b: int, c: int)
    requires
        b > 0,
        a >= 0,
        divides(c, b),
        divides(c, a % b),
    ensures
        divides(c, a),
{
    let kb = choose|k: int| b == #[trigger] (c * k);
    let kr = choose|k: int| a % b == #[trigger] (c * k);
    let q = a / b;
    assert(a == b * q + a % b) by {
        vstd::arithmetic::div_mod::lemma_fundamental_div_mod(a, b);
    }
    assert(a == c * (kb * q + kr)) by (nonlinear_arith)
        requires
            b == c * kb,
            a % b == c * kr,
            a == b * q + a % b,
    ;
    lemma_divides_witness(c, kb * q + kr);
}

/// The greatest common divisor divides both arguments.
pub proof fn lemma_gcd_nat_divides(a: nat, b: nat)
    ensures
        divides(gcd_nat(a, b) as int, a as int),
        divides(gcd_nat(a, b) as int, b as int),
    decreases b,
{
    let g = gcd_nat(a, b) as int;
    if b == 0 {
        assert(a as int == g * 1);
        assert(b as int == g * 0);
    } else {
        lemma_gcd_nat_divides(b, a % b);
        lemma_divides_from_mod(a as int, b as int, g);
    }
}

/// Every common divisor divides the greatest common divisor.
pub proof fn lemma_gcd_nat_greatest(a: nat, b: nat, c: int)
    requires
        divides(c, a as int),
        divides(c, b as int),
    ensures
        divides(c, gcd_nat(a, b) as int),
    decreases b,
{
    if b != 0 {
        lemma_mod_divides(a as int, b as int, c);
        lemma_gcd_nat_greatest(b, a % b, c);
    }
}

/// The greatest common divisor is 0 only when both arguments are.
pub proof fn lemma_gcd_nat_zero(a: nat, b: nat)
    ensures
        gcd_nat(a, b) == 0 <==> (a == 0 && b == 0),
    decreases b,
{
    if b != 0 {
        lemma_gcd_nat_zero(b, a % b);
    }
}

pub proof fn lemma_divides_abs(d: int, a: int)
    ensures
        divides(d, a) <==> divides(d, abs(a)),
{
    if divides(d, a) {
        let k = choose|k: int| a == #[trigger] (d * k);
        assert(-a == d * (-k)) by (nonlinear_arith)
            requires
                a == d * k,
        ;
        if a < 0 {
            lemma_divides_witness(d, -k);
        }
    }
    if divides(d, abs(a)) {
        let k = choose|k: int| abs(a) == #[trigger] (d * k);
        assert(-abs(a) == d * (-k)) by (nonlinear_arith)
            requires
                abs(a) == d * k,
        ;
        if a < 0 {
            lemma_divides_witness(d, -k);
        }
    }
}

/// What makes [`gcd`] the greatest common divisor: it is not negative, it
/// divides both arguments, and every common divisor divides it.
pub proof fn lemma_gcd_properties(a: int, b: int)
    ensures
        gcd(a, b) >= 0,
        gcd(a, b) == 0 <==> (a == 0 && b == 0),
        divides(gcd(a, b), a),
        divides(gcd(a, b), b),
        forall|c: int| divides(c, a) && divides(c, b) ==> #[trigger] divides(c, gcd(a, b)),
{
    let g = gcd(a, b);
    lemma_gcd_nat_zero(abs(a) as nat, abs(b) as nat);
    lemma_gcd_nat_divides(abs(a) as nat, abs(b) as nat);
    lemma_divides_abs(g, a);
    lemma_divides_abs(g, b);
    assert forall|c: int| divides(c, a) && divides(c, b) implies #[trigger] divides(c, g) by {
        lemma_divides_abs(c, a);
        lemma_divides_abs(c, b);
        lemma_gcd_nat_greatest(abs(a) as nat, abs(b) as nat, c);
    }
}

/// Two non-negative integers that divide each other are equal.
pub proof fn lemma_divides_antisymmetric(a: int, b: int)
    requires
        a >= 0,
        b >= 0,
        divides(a, b),
        divides(b, a),
    ensures
        a == b,
{
    let k = choose|k: int| b == #[trigger] (a * k);
    let m = choose|m: int| a == #[trigger] (b * m);
    if a == 0 {
        assert(b == 0) by (nonlinear_arith)
            requires
                b == a * k,
                a == 0,
        ;
    } else if b == 0 {
        assert(a == 0) by (nonlinear_arith)
            requires
                a == b * m,
                b == 0,
        ;
    } else {
        assert(a == b) by (nonlinear_arith)
            requires
                a > 0,
                b > 0,
                b == a * k,
                a == b * m,
        ;
    }
}

/// The greatest common divisor does not depend on the order of its arguments.
pub proof fn lemma_gcd_symmetric(a: int, b: int)
    ensures
        gcd(a, b) == gcd(b, a),
{
    lemma_gcd_properties(a, b);
    lemma_gcd_properties(b, a);
    lemma_divides_antisymmetric(gcd(a, b), gcd(b, a));
}

/// Dividing by a positive divisor is exact: the quotient times the divisor
/// gives the dividend back, and truncating division agrees with it.
pub proof fn lemma_exact_div(a: int, g: int)
    requires
        g > 0,
        divides(g, a),
    ensures
        (a / g) * g == a,
        trunc_div(a, g) == a / g,
        a % g == 0,
{
    let k = choose|k: int| a == #[trigger] (g * k);
    assert(a == k * g) by (nonlinear_arith)
        requires
            a == g * k,
    ;
    vstd::arithmetic::div_mod::lemma_fundamental_div_mod_converse(a, g, k, 0);
    assert(a / g == k);
    assert(-a == (-k) * g) by (nonlinear_arith)
        requires
            a == k * g,
    ;
    vstd::arithmetic::div_mod::lemma_fundamental_div_mod_converse(-a, g, -k, 0);
    assert((-a) / g == -k);
    assert(k * g == a);
}

/// After both arguments are divided by their greatest common divisor, the
/// greatest common divisor of the quotients is 1.
pub proof fn lemma_gcd_of_quotients(a: int, b: int)
    requires
        a != 0 || b != 0,
    ensures
        gcd(a / gcd(a, b), b / gcd(a, b)) == 1,
{
    let g = gcd(a, b);
    lemma_gcd_properties(a, b);
    lemma_exact_div(a, g);
    lemma_exact_div(b, g);
    let x = a / g;
    let y = b / g;
    let h = gcd(x, y);
    lemma_gcd_properties(x, y);
    assert(x != 0 || y != 0) by (nonlinear_arith)
        requires
            x * g == a,
            y * g == b,
            a != 0 || b != 0,
    ;
    let kx = choose|k: int| x == #[trigger] (h * k);
    let ky = choose|k: int| y == #[trigger] (h * k);
    assert(a == (h * g) * kx) by (nonlinear_arith)
        requires
            x * g == a,
            x == h * kx,
    ;
    assert(b == (h * g) * ky) by (nonlinear_arith)
        requires
            y * g == b,
            y == h * ky,
    ;
    lemma_divides_witness(h * g, kx);
    lemma_divides_witness(h * g, ky);
    assert(divides(h * g, g));
    let m = choose|m: int| g == #[trigger] ((h * g) * m);
    assert(h == 1) by (nonlinear_arith)
        requires
            g > 0,
            h > 0,
            g == (h * g) * m,
    ;
}

} // verus!
