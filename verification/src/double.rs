//! Rounding a positive ratio of integers to the nearest double.
use vstd::prelude::*;
use vstd::arithmetic::power2::{
    lemma2_to64, lemma2_to64_rest, lemma_pow2_adds, lemma_pow2_pos, lemma_pow2_strictly_increases,
    lemma_pow2_unfold, pow2,
};
use vstd::arithmetic::div_mod::lemma_fundamental_div_mod_converse;
use crate::text::round_half_even;

verus! {

/// The exponent by which a ratio is multiplied, when it is one.
pub open spec fn shift_up(k: int) -> nat {
    if k >= 0 { k as nat } else { 0 }
}

/// The exponent by which a ratio is divided, when it is one.
pub open spec fn shift_down(k: int) -> nat {
    if k >= 0 { 0 } else { (-k) as nat }
}

/// The numerator of `a / b` times `2^k`.
pub open spec fn scaled_num(a: nat, k: int) -> nat {
    a * pow2(shift_up(k))
}

/// The denominator of `a / b` times `2^k`.
pub open spec fn scaled_den(b: nat, k: int) -> nat {
    b * pow2(shift_down(k))
}

/// Whether `a / b` times `2^k` lies in `[2^52, 2^53)`: the binade where a
/// double's significand is an integer.
pub open spec fn normal_at(a: nat, b: nat, k: int) -> bool {
    pow2(52) * scaled_den(b, k) <= scaled_num(a, k) < pow2(53) * scaled_den(b, k)
}

/// The power of two that brings a positive ratio into `[2^52, 2^53)`.
pub open spec fn normal_scale(a: nat, b: nat) -> int {
    choose|k: int| normal_at(a, b, k)
}

/// The significand of the double nearest to the positive ratio `a / b`,
/// ties to the even significand; that double is the significand divided by
/// `2^normal_scale(a, b)`.
pub open spec fn nearest_significand(a: nat, b: nat) -> nat {
    round_half_even(
        scaled_num(a, normal_scale(a, b)),
        scaled_den(b, normal_scale(a, b)),
    )
}

proof fn lemma_scale_shift(a: nat, b: nat, k1: int, k2: int)
    requires
        k1 < k2,
    ensures
        scaled_num(a, k2) * scaled_den(b, k1) == scaled_num(a, k1) * scaled_den(b, k2) * pow2(
            (k2 - k1) as nat,
        ),
{
    let e1 = shift_up(k1);
    let e2 = shift_up(k2);
    let f1 = shift_down(k1);
    let f2 = shift_down(k2);
    let d = (k2 - k1) as nat;
    assert(e2 + f1 == e1 + f2 + d);
    lemma_pow2_adds(e2, f1);
    lemma_pow2_adds(e1 + f2, d);
    lemma_pow2_adds(e1, f2);
    let p = pow2(e2) * pow2(f1);
    assert(p == pow2(e1) * pow2(f2) * pow2(d));
    assert(a * pow2(e2) * (b * pow2(f1)) == a * b * (pow2(e2) * pow2(f1))) by (nonlinear_arith);
    assert(a * pow2(e1) * (b * pow2(f2)) * pow2(d) == a * b * (pow2(e1) * pow2(f2) * pow2(d))) by (nonlinear_arith);
}

/// A positive ratio lies in `[2^52, 2^53)` at one scale only.
pub proof fn lemma_normal_scale_unique(a: nat, b: nat, k1: int, k2: int)
    requires
        b > 0,
        normal_at(a, b, k1),
        normal_at(a, b, k2),
    ensures
        k1 == k2,
{
    if k1 != k2 {
        let (lo, hi) = if k1 < k2 { (k1, k2) } else { (k2, k1) };
        lemma_scale_shift(a, b, lo, hi);
        let d = (hi - lo) as nat;
        lemma_pow2_unfold(d);
        lemma_pow2_pos((d - 1) as nat);
        lemma_pow2_pos(shift_down(lo));
        lemma_pow2_pos(shift_down(hi));
        lemma_pow2_unfold(53);
        let x1 = scaled_num(a, lo);
        let y1 = scaled_den(b, lo);
        let x2 = scaled_num(a, hi);
        let y2 = scaled_den(b, hi);
        let p = pow2(d);
        let c = pow2(52);
        assert(y1 > 0 && y2 > 0) by (nonlinear_arith)
            requires
                b > 0,
                pow2(shift_down(lo)) > 0,
                pow2(shift_down(hi)) > 0,
                y1 == b * pow2(shift_down(lo)),
                y2 == b * pow2(shift_down(hi)),
        ;
        assert(false) by (nonlinear_arith)
            requires
                x2 < 2 * c * y2,
                x1 >= c * y1,
                x2 * y1 == x1 * y2 * p,
                p >= 2,
                y1 > 0,
                y2 > 0,
                c > 0,
        ;
    }
}


/// The double `m / 2^k` as a ratio.
pub proof fn lemma_double_as_ratio(m: nat, k: int)
    ensures
        k >= 0 ==> scaled_num(m, -k) == m && scaled_den(1, -k) == pow2(k as nat),
        k < 0 ==> scaled_num(m, -k) == m * pow2((-k) as nat) && scaled_den(1, -k) == 1,
        scaled_num(m, k) == m * pow2(shift_up(k)),
{
    lemma2_to64();
    if k >= 0 {
        assert(shift_up(-k) == 0);
        assert(shift_down(-k) == k);
    } else {
        assert(shift_up(-k) == -k);
        assert(shift_down(-k) == 0);
    }
}

/// `2^e` is below `2^f` only when `e` is below `f`.
proof fn lemma_pow2_below(e: nat, f: nat)
    requires
        pow2(e) < pow2(f),
    ensures
        e < f,
{
    if e >= f {
        if e > f {
            lemma_pow2_strictly_increases(f, e);
        }
    }
}

/// The powers of two that bound the ratios this module rounds.
proof fn lemma_pow2_bounds()
    ensures
        pow2(0) == 1,
        pow2(52) == 0x10_0000_0000_0000,
        pow2(53) == 0x20_0000_0000_0000,
        pow2(64) == 0x1_0000_0000_0000_0000,
        pow2(72) == 0x100_0000_0000_0000_0000,
        pow2(116) == 0x10_0000_0000_0000_0000_0000_0000_0000,
        pow2(168) == pow2(52) * pow2(116),
{
    lemma2_to64();
    lemma2_to64_rest();
    lemma_pow2_adds(64, 8);
    lemma2_to64();
    assert(pow2(8) == 0x100);
    lemma_pow2_adds(64, 52);
    lemma_pow2_adds(52, 116);
}

/// `2^n`.
pub fn pow2_of(n: u32) -> (p: u128)
    requires
        n < 128,
    ensures
        p == pow2(n as nat),
{
    proof {
        lemma_pow2_bounds();
    }
    let mut p: u128 = 1;
    let mut i: u32 = 0;
    while i < n
        invariant
            i <= n < 128,
            p == pow2(i as nat),
        decreases n - i,
    {
        proof {
            lemma_pow2_unfold((i + 1) as nat);
            if i < 127 {
                lemma_pow2_strictly_increases(i as nat, 127);
            }
            lemma2_to64();
            lemma2_to64_rest();
            lemma_pow2_adds(64, 63);
            assert(pow2(127) == 0x8000_0000_0000_0000_0000_0000_0000_0000);
        }
        p = p * 2;
        i = i + 1;
    }
    p
}

/// The double nearest to the positive ratio `a / b`, as its significand and
/// the power of two it is divided by.
pub fn nearest_double(a: u128, b: u128) -> (r: (u128, i32))
    requires
        1 <= a <= pow2(72),
        1 <= b <= pow2(116),
    ensures
        normal_at(a as nat, b as nat, r.1 as int),
        r.1 == normal_scale(a as nat, b as nat),
        r.0 == nearest_significand(a as nat, b as nat),
        pow2(52) <= r.0 <= pow2(53),
        r.1 > 0 ==> a * pow2((r.1 - 1) as nat) < pow2(52) * b,
        r.1 < 0 ==> pow2(52) * b * pow2((-r.1) as nat) <= a,
        -20 <= r.1 <= 168,
{
    proof {
        lemma_pow2_bounds();
    }
    let two52: u128 = 0x10_0000_0000_0000;
    if b <= 0x100_0000_0000_0000_0000 && a >= two52 * b {
        let mut j: u32 = 0;
        let mut den: u128 = b;
        assert(den <= 0x10_0000) by (nonlinear_arith)
            requires
                a >= two52 * den,
                a <= 0x100_0000_0000_0000_0000,
                two52 == 0x10_0000_0000_0000,
        ;
        while a >= 0x20_0000_0000_0000 * den
            invariant
                two52 == 0x10_0000_0000_0000,
                den <= 0x10_0000,
                two52 == pow2(52),
                pow2(53) == 2 * two52,
                pow2(72) == 0x100_0000_0000_0000_0000,
                1 <= b <= pow2(72),
                1 <= a <= pow2(72),
                den == b * pow2(j as nat),
                a >= two52 * den,
                j <= 20,
            decreases a - den,
        {
            proof {
                lemma_pow2_unfold((j + 1) as nat);
                lemma_pow2_pos(j as nat);
                assert(den >= pow2(j as nat)) by (nonlinear_arith)
                    requires
                        den == b * pow2(j as nat),
                        b >= 1,
                ;
                assert(pow2(53 + j as nat) == pow2(53) * pow2(j as nat)) by {
                    lemma_pow2_adds(53, j as nat);
                }
                assert(pow2(53) * pow2(j as nat) <= 0x20_0000_0000_0000 * den) by (nonlinear_arith)
                    requires
                        den >= pow2(j as nat),
                        pow2(53) == 0x20_0000_0000_0000,
                ;
                assert(pow2(53 + j as nat) < pow2(73)) by {
                    lemma2_to64();
                    lemma_pow2_adds(72, 1);
                }
                lemma_pow2_below(53 + j as nat, 73);
            }
            assert(den <= 0x8_0000) by (nonlinear_arith)
                requires
                    a >= 2 * two52 * den,
                    a <= 0x100_0000_0000_0000_0000,
                    two52 == 0x10_0000_0000_0000,
            ;
            den = 2 * den;
            j = j + 1;
            assert(den == b * pow2(j as nat)) by (nonlinear_arith)
                requires
                    den == 2 * (b * pow2((j - 1) as nat)),
                    pow2(j as nat) == 2 * pow2((j - 1) as nat),
            ;
        }
        let m = crate::text::divide_round_half_even(a, den);
        let k: i32 = -(j as i32);
        proof {
            assert(pow2(52) * b * pow2(j as nat) == two52 * den) by (nonlinear_arith)
                requires
                    den == b * pow2(j as nat),
                    two52 == pow2(52),
            ;
            assert(shift_up(k as int) == 0);
            assert(shift_down(k as int) == j);
            assert(scaled_num(a as nat, k as int) == a);
            assert(scaled_den(b as nat, k as int) == den);
            assert(normal_at(a as nat, b as nat, k as int));
            let c = choose|c: int| normal_at(a as nat, b as nat, c);
            lemma_normal_scale_unique(a as nat, b as nat, c, k as int);
            lemma_round_bounds(a as nat, den as nat);
        }
        (m, k)
    } else {
        let mut q: u128 = a / b;
        let mut r: u128 = a % b;
        let mut k: u32 = 0;
        proof {
            vstd::arithmetic::div_mod::lemma_fundamental_div_mod(a as int, b as int);
            if b <= 0x100_0000_0000_0000_0000 {
                assert(q < two52) by (nonlinear_arith)
                    requires
                        a < two52 * b,
                        a == b * q + r,
                        r >= 0,
                        b > 0,
                ;
            } else {
                assert(q == 0) by (nonlinear_arith)
                    requires
                        a < b,
                        q == a / b,
                        b > 0,
                ;
            }
            assert(q * b + r == a * pow2(0)) by (nonlinear_arith)
                requires
                    a == b * q + r,
                    pow2(0) == 1,
            ;
        }
        while q < two52
            invariant
                two52 == 0x10_0000_0000_0000,
                two52 == pow2(52),
                pow2(53) == 2 * two52,
                pow2(116) == 0x10_0000_0000_0000_0000_0000_0000_0000,
                pow2(168) == pow2(52) * pow2(116),
                1 <= a <= pow2(72),
                1 <= b <= pow2(116),
                q * b + r == a * pow2(k as nat),
                r < b,
                q < 2 * two52,
                k > 0 ==> a * pow2((k - 1) as nat) < pow2(52) * b,
                k <= 168,
            decreases pow2(53) * b - a * pow2(k as nat),
        {
            proof {
                assert(a * pow2(k as nat) < pow2(52) * b) by (nonlinear_arith)
                    requires
                        q * b + r == a * pow2(k as nat),
                        r < b,
                        q < two52,
                        two52 == pow2(52),
                ;
                lemma_pow2_pos(k as nat);
                assert(pow2(k as nat) <= a * pow2(k as nat)) by (nonlinear_arith)
                    requires
                        a >= 1,
                        pow2(k as nat) > 0,
                ;
                assert(pow2(52) * b <= pow2(52) * pow2(116)) by (nonlinear_arith)
                    requires
                        b <= pow2(116),
                ;
                lemma_pow2_below(k as nat, 168);
                lemma_pow2_unfold((k + 1) as nat);
            }
            let ghost before = a * pow2(k as nat);
            assert(before >= 1) by (nonlinear_arith)
                requires
                    before == a * pow2(k as nat),
                    a >= 1,
                    pow2(k as nat) > 0,
            ;
            let tr = 2 * r;
            if tr >= b {
                q = 2 * q + 1;
                r = tr - b;
            } else {
                q = 2 * q;
                r = tr;
            }
            k = k + 1;
            proof {
                assert(q * b + r == 2 * before) by (nonlinear_arith)
                    requires
                        (q == 2 * ((q - 1) / 2) + 1 && r == tr - b) || (q == 2 * (q / 2) && r == tr),
                        tr == 2 * (tr / 2),
                        before == (q / 2) * b + tr / 2,
                ;
                assert(a * pow2(k as nat) == 2 * before) by (nonlinear_arith)
                    requires
                        pow2(k as nat) == 2 * pow2((k - 1) as nat),
                        before == a * pow2((k - 1) as nat),
                ;
                assert(a * pow2(k as nat) < pow2(53) * b) by (nonlinear_arith)
                    requires
                        q * b + r == a * pow2(k as nat),
                        r < b,
                        q < 2 * two52,
                        2 * two52 == pow2(53),
                ;
            }
        }
        let m = if r > b - r || (r == b - r && q % 2 == 1) {
            q + 1
        } else {
            q
        };
        let k: i32 = k as i32;
        proof {
            assert(shift_up(k as int) == k);
            assert(shift_down(k as int) == 0);
            assert(scaled_den(b as nat, k as int) == b);
            lemma_fundamental_div_mod_converse(
                scaled_num(a as nat, k as int) as int,
                b as int,
                q as int,
                r as int,
            );
            assert(normal_at(a as nat, b as nat, k as int)) by (nonlinear_arith)
                requires
                    q * b + r == scaled_num(a as nat, k as int),
                    r < b,
                    two52 <= q < 2 * two52,
                    pow2(52) == two52,
                    pow2(53) == 2 * two52,
                    scaled_den(b as nat, k as int) == b,
            ;
            let c = choose|c: int| normal_at(a as nat, b as nat, c);
            lemma_normal_scale_unique(a as nat, b as nat, c, k as int);
        }
        (m, k)
    }
}

proof fn lemma_round_bounds(a: nat, b: nat)
    requires
        b > 0,
        pow2(52) * b <= a < pow2(53) * b,
    ensures
        pow2(52) <= round_half_even(a, b) <= pow2(53),
{
    vstd::arithmetic::div_mod::lemma_fundamental_div_mod(a as int, b as int);
    let q = a / b;
    let r = a % b;
    assert(pow2(52) <= q < pow2(53)) by (nonlinear_arith)
        requires
            a == b * q + r,
            0 <= r < b,
            pow2(52) * b <= a < pow2(53) * b,
    ;
}

} // verus!
