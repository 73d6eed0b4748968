//! Byte counts and percentages as the applet writes them. Both go through
//! double-precision floating point; the values here are those of that
//! arithmetic, computed exactly in integers.
use vstd::prelude::*;
use vstd::arithmetic::power2::{
    lemma2_to64, lemma2_to64_rest, lemma_pow2_adds, lemma_pow2_pos, lemma_pow2_strictly_increases, pow2,
};
use crate::double::{
    lemma_double_as_ratio, nearest_double, nearest_significand, normal_at, normal_scale, pow2_of,
    scaled_den, scaled_num, shift_down,
};
use crate::text::{
    dec, divide_round_half_even, push_decimal, push_tenths, round_half_even, tenths_text,
};

verus! {

/// The distance between neighbouring `f64` values around `b`, for `b < 2^64`:
/// a double holds 53 significant bits.
pub open spec fn f64_spacing(b: nat) -> nat {
    if b < 0x20_0000_0000_0000 { 1 }
    else if b < 0x40_0000_0000_0000 { 2 }
    else if b < 0x80_0000_0000_0000 { 4 }
    else if b < 0x100_0000_0000_0000 { 8 }
    else if b < 0x200_0000_0000_0000 { 16 }
    else if b < 0x400_0000_0000_0000 { 32 }
    else if b < 0x800_0000_0000_0000 { 64 }
    else if b < 0x1000_0000_0000_0000 { 128 }
    else if b < 0x2000_0000_0000_0000 { 256 }
    else if b < 0x4000_0000_0000_0000 { 512 }
    else if b < 0x8000_0000_0000_0000 { 1024 }
    else { 2048 }
}

/// The value of `b as f64`: the nearest double, ties to the even one.
pub open spec fn as_f64(b: nat) -> nat {
    round_half_even(b, f64_spacing(b)) * f64_spacing(b)
}

/// `1024^k`.
pub open spec fn pow1024(k: nat) -> nat
    decreases k,
{
    if k == 0 { 1 } else { 1024 * pow1024((k - 1) as nat) }
}

/// The largest unit (B, KB, MB, GB, TB) in which the value is at least one.
pub open spec fn byte_unit(f: nat) -> nat {
    if f < pow1024(1) { 0 }
    else if f < pow1024(2) { 1 }
    else if f < pow1024(3) { 2 }
    else if f < pow1024(4) { 3 }
    else { 4 }
}

/// The name of a byte unit.
pub open spec fn unit_name(k: nat) -> Seq<char> {
    if k == 0 { "B"@ }
    else if k == 1 { "KB"@ }
    else if k == 2 { "MB"@ }
    else if k == 3 { "GB"@ }
    else { "TB"@ }
}

/// A byte count as shown to the user: "512B" below a kibibyte; above, the
/// value in the largest unit in which it is at least one, with one decimal
/// ("1.5KB", "2.0GB"). The value is that of the count as a double, written
/// to the nearest tenth, a half going to the even tenth.
pub open spec fn bytes_text(bytes: nat) -> Seq<char> {
    let f = as_f64(bytes);
    let k = byte_unit(f);
    if k == 0 {
        dec(bytes) + unit_name(0)
    } else {
        tenths_text(round_half_even(10 * f, pow1024(k))) + unit_name(k)
    }
}

/// The tenths of `(current as f64 / total as f64) * 100.0`: both counts
/// become doubles, their quotient is rounded to the nearest double, that
/// times 100 is rounded to the nearest double again, and the result is
/// taken to the nearest tenth, a half going to the even tenth.
pub open spec fn share_percent_tenths(current: nat, total: nat) -> nat {
    let a = as_f64(current);
    let b = as_f64(total);
    if a == 0 {
        0
    } else {
        // the quotient is mx / 2^kx
        let kx = normal_scale(a, b);
        let mx = nearest_significand(a, b);
        // the percentage is the double nearest mx * 100 / 2^kx, that is mp / 2^kp
        let pn = scaled_num(mx * 100, -kx);
        let pd = scaled_den(1, -kx);
        let kp = normal_scale(pn, pd);
        let mp = nearest_significand(pn, pd);
        round_half_even(scaled_num(10 * mp, -kp), scaled_den(1, -kp))
    }
}

/// A share as shown to the user: the percentage that floating point gives,
/// with one decimal ("42.5%"); "0.0%" when the whole is zero.
pub open spec fn percentage_text(current: nat, total: nat) -> Seq<char> {
    if total == 0 {
        "0.0%"@
    } else {
        tenths_text(share_percent_tenths(current, total)) + "%"@
    }
}

proof fn lemma_exact_below_2_53(b: nat)
    requires
        b < 0x20_0000_0000_0000,
    ensures
        as_f64(b) == b,
{
    assert(f64_spacing(b) == 1);
    vstd::arithmetic::div_mod::lemma_fundamental_div_mod_converse(b as int, 1, b as int, 0);
    assert(b / 1 == b);
    assert(b % 1 == 0);
    assert(round_half_even(b, 1) == b);
}

/// Counts below a kibibyte are written out in bytes: "512B".
pub proof fn lemma_small_byte_counts(bytes: nat)
    requires
        bytes < 1024,
    ensures
        bytes_text(bytes) == dec(bytes) + "B"@,
{
    lemma_exact_below_2_53(bytes);
    reveal_with_fuel(pow1024, 2);
}

/// An empty share reads "0.0%", whatever the whole.
pub proof fn lemma_empty_share(total: nat)
    ensures
        percentage_text(0, total) == "0.0%"@,
{
    lemma_exact_below_2_53(0);
    reveal_strlit("0.0%");
    reveal_strlit(".");
    reveal_strlit("%");
    assert(dec(0) == seq!['0']);
    assert(tenths_text(0) + "%"@ =~= "0.0%"@);
}

/// A share that is the whole reads "100.0%".
pub proof fn lemma_whole_share(total: nat)
    requires
        0 < total < 0x1_0000_0000_0000_0000,
    ensures
        percentage_text(total, total) == "100.0%"@,
{
    let a = as_f64(total);
    lemma_as_f64_positive(total);
    lemma_quotient_of_equals(a);
    let mx = nearest_significand(a, a);
    let kx = normal_scale(a, a);
    lemma_double_as_ratio(mx * 100, kx);
    let pn = scaled_num(mx * 100, -kx);
    let pd = scaled_den(1, -kx);
    lemma_hundred();
    let kp = normal_scale(pn, pd);
    let mp = nearest_significand(pn, pd);
    lemma_double_as_ratio(10 * mp, kp);
    lemma2_to64();
    lemma2_to64_rest();
    vstd::arithmetic::div_mod::lemma_fundamental_div_mod_converse(
        (10 * mp) as int,
        pow2(46) as int,
        1000,
        0,
    );
    assert(share_percent_tenths(total, total) == 1000);
    reveal_strlit("100.0%");
    reveal_strlit(".");
    reveal_strlit("%");
    assert(dec(1) == seq!['1']);
    assert(dec(0) == seq!['0']);
    assert(dec(10) == seq!['1', '0']);
    assert(dec(100) == seq!['1', '0', '0']);
    assert(tenths_text(1000) + "%"@ =~= "100.0%"@);
}

/// A positive double over itself is exactly one: `2^52 / 2^52`.
proof fn lemma_quotient_of_equals(a: nat)
    requires
        a > 0,
    ensures
        normal_scale(a, a) == 52,
        nearest_significand(a, a) == pow2(52),
{
    lemma2_to64();
    lemma2_to64_rest();
    lemma_double_as_ratio(a, 52);
    assert(shift_down(52) == 0);
    assert(scaled_den(a, 52) == a);
    assert(scaled_num(a, 52) == a * pow2(52));
    assert(pow2(52) * a <= a * pow2(52) < pow2(53) * a) by (nonlinear_arith)
        requires
            a > 0,
            pow2(53) == 2 * pow2(52),
            pow2(52) > 0,
    ;
    assert(normal_at(a, a, 52));
    let k = normal_scale(a, a);
    crate::double::lemma_normal_scale_unique(a, a, k, 52);
    vstd::arithmetic::div_mod::lemma_fundamental_div_mod_converse(
        (a * pow2(52)) as int,
        a as int,
        pow2(52) as int,
        0,
    );
}

/// One times a hundred is exactly a hundred: `100 * 2^46 / 2^46`.
proof fn lemma_hundred()
    ensures
        normal_scale(pow2(52) * 100, pow2(52)) == 46,
        nearest_significand(pow2(52) * 100, pow2(52)) == 100 * pow2(46),
{
    lemma2_to64();
    lemma2_to64_rest();
    let pn = pow2(52) * 100;
    let pd = pow2(52);
    lemma_double_as_ratio(pn, 46);
    assert(shift_down(46) == 0);
    assert(scaled_den(pd, 46) == pd);
    assert(scaled_num(pn, 46) == pn * pow2(46));
    assert(pow2(52) * pd <= pn * pow2(46) < pow2(53) * pd) by (nonlinear_arith)
        requires
            pn == pow2(52) * 100,
            pd == pow2(52),
            pow2(52) == 0x10_0000_0000_0000,
            pow2(53) == 0x20_0000_0000_0000,
            pow2(46) == 0x4000_0000_0000,
    ;
    assert(normal_at(pn, pd, 46));
    let k = normal_scale(pn, pd);
    crate::double::lemma_normal_scale_unique(pn, pd, k, 46);
    assert(pn * pow2(46) == 100 * pow2(46) * pd) by (nonlinear_arith)
        requires
            pn == pow2(52) * 100,
            pd == pow2(52),
    ;
    vstd::arithmetic::div_mod::lemma_fundamental_div_mod_converse(
        (pn * pow2(46)) as int,
        pd as int,
        (100 * pow2(46)) as int,
        0,
    );
}

proof fn lemma_as_f64_positive(b: nat)
    requires
        0 < b < 0x1_0000_0000_0000_0000,
    ensures
        0 < as_f64(b) <= 0x1_0000_0000_0000_0000,
{
    let p = f64_spacing(b);
    vstd::arithmetic::div_mod::lemma_fundamental_div_mod(b as int, p as int);
    lemma_round_bound(b, p);
    if p > 1 {
        assert(b >= 0x20_0000_0000_0000);
        assert(p <= 2048);
        let q = b / p;
        if q == 0 {
            assert(p * q == 0);
            assert(b == b % p);
        }
    } else {
        assert(b / p == b);
    }
    assert(round_half_even(b, p) >= 1);
    assert(round_half_even(b, p) * p >= 1) by (nonlinear_arith)
        requires
            round_half_even(b, p) >= 1,
            p >= 1,
    ;
}

fn f64_spacing_of(b: u64) -> (p: u128)
    ensures
        p == f64_spacing(b as nat),
        1 <= p <= 2048,
{
    if b < 0x20_0000_0000_0000 { 1 }
    else if b < 0x40_0000_0000_0000 { 2 }
    else if b < 0x80_0000_0000_0000 { 4 }
    else if b < 0x100_0000_0000_0000 { 8 }
    else if b < 0x200_0000_0000_0000 { 16 }
    else if b < 0x400_0000_0000_0000 { 32 }
    else if b < 0x800_0000_0000_0000 { 64 }
    else if b < 0x1000_0000_0000_0000 { 128 }
    else if b < 0x2000_0000_0000_0000 { 256 }
    else if b < 0x4000_0000_0000_0000 { 512 }
    else if b < 0x8000_0000_0000_0000 { 1024 }
    else { 2048 }
}

proof fn lemma_round_bound(a: nat, b: nat)
    requires
        b > 0,
    ensures
        round_half_even(a, b) <= a / b + 1,
        round_half_even(a, b) * b <= a + b,
{
    let q = a / b;
    let r = a % b;
    vstd::arithmetic::div_mod::lemma_fundamental_div_mod(a as int, b as int);
    assert(q * b <= a) by (nonlinear_arith)
        requires
            a == b * q + r,
            r >= 0,
    ;
    assert((q + 1) * b == q * b + b) by (nonlinear_arith);
}

/// The value of `b as f64`.
fn to_f64_value(b: u64) -> (f: u128)
    ensures
        f == as_f64(b as nat),
        f <= 0x1_0000_0000_0000_0000,
        b > 0 ==> f > 0,
{
    let p = f64_spacing_of(b);
    let q = divide_round_half_even(b as u128, p);
    proof {
        if b > 0 {
            lemma_as_f64_positive(b as nat);
        } else {
            lemma_exact_below_2_53(0);
        }
    }
    q * p
}

fn pow1024_of(k: u128) -> (p: u128)
    requires
        k <= 4,
    ensures
        p == pow1024(k as nat),
        k >= 1 ==> p >= 1024,
{
    proof {
        reveal_with_fuel(pow1024, 5);
    }
    if k == 0 { 1 }
    else if k == 1 { 1024 }
    else if k == 2 { 1024 * 1024 }
    else if k == 3 { 1024 * 1024 * 1024 }
    else { 1024 * 1024 * 1024 * 1024 }
}

fn unit_name_str(k: u128) -> (s: &'static str)
    requires
        k <= 4,
    ensures
        s@ == unit_name(k as nat),
{
    if k == 0 { "B" }
    else if k == 1 { "KB" }
    else if k == 2 { "MB" }
    else if k == 3 { "GB" }
    else { "TB" }
}

/// Formats a byte count with the largest unit in which it is at least one.
pub fn format_bytes(bytes: u64) -> (s: String)
    ensures
        s@ == bytes_text(bytes as nat),
{
    let f = to_f64_value(bytes);
    proof {
        reveal_with_fuel(pow1024, 5);
    }
    let k: u128 = if f < 1024 { 0 }
        else if f < 1024 * 1024 { 1 }
        else if f < 1024 * 1024 * 1024 { 2 }
        else if f < 1024 * 1024 * 1024 * 1024 { 3 }
        else { 4 };
    assert(k == byte_unit(f as nat));
    let mut s = String::new();
    if k == 0 {
        push_decimal(&mut s, bytes as u128);
        s.append(unit_name_str(0));
    } else {
        let p = pow1024_of(k);
        let t = divide_round_half_even(10 * f, p);
        proof {
            lemma_round_bound((10 * f) as nat, p as nat);
            assert((10 * f) as nat / (p as nat) <= (10 * f) as nat / 1024) by {
                vstd::arithmetic::div_mod::lemma_div_is_ordered_by_denominator((10 * f) as int, 1024, p as int);
            }
        }
        push_tenths(&mut s, t);
        s.append(unit_name_str(k));
    }
    assert(s@ =~= bytes_text(bytes as nat));
    s
}

proof fn lemma_scale_above(a: nat, b: nat, k: int, lo_a: nat, hi_b: nat)
    requires
        k > 0,
        a >= pow2(lo_a),
        b <= pow2(hi_b),
        a * pow2((k - 1) as nat) < pow2(52) * b,
    ensures
        k + lo_a <= 52 + hi_b,
{
    let e = (k - 1) as nat;
    lemma_pow2_pos(e);
    lemma_pow2_pos(52);
    assert(pow2(lo_a) * pow2(e) < pow2(52) * pow2(hi_b)) by (nonlinear_arith)
        requires
            a >= pow2(lo_a),
            b <= pow2(hi_b),
            a * pow2(e) < pow2(52) * b,
            pow2(e) > 0,
            pow2(52) > 0,
    ;
    lemma_pow2_adds(lo_a, e);
    lemma_pow2_adds(52, hi_b);
    if lo_a + e >= 52 + hi_b {
        if lo_a + e > 52 + hi_b {
            lemma_pow2_strictly_increases(52 + hi_b, lo_a + e);
        }
    }
}

proof fn lemma_scale_below(a: nat, b: nat, k: int, hi_a: nat, lo_b: nat)
    requires
        k < 0,
        a <= pow2(hi_a),
        b >= pow2(lo_b),
        pow2(52) * b * pow2((-k) as nat) <= a,
    ensures
        52 + lo_b - k <= hi_a,
{
    let e = (-k) as nat;
    lemma_pow2_pos(e);
    lemma_pow2_pos(52);
    assert(pow2(52) * pow2(lo_b) * pow2(e) <= pow2(hi_a)) by (nonlinear_arith)
        requires
            b >= pow2(lo_b),
            pow2(52) * b * pow2(e) <= a,
            a <= pow2(hi_a),
            pow2(e) > 0,
            pow2(52) > 0,
    ;
    lemma_pow2_adds(52, lo_b);
    lemma_pow2_adds(52 + lo_b, e);
    if 52 + lo_b + e > hi_a {
        lemma_pow2_strictly_increases(hi_a, 52 + lo_b + e);
    }
}

/// Formats `current` as a percentage of `total`, with one decimal, as the
/// floating-point computation `(current as f64 / total as f64) * 100.0`
/// gives it.
pub fn format_percentage(current: u64, total: u64) -> (s: String)
    ensures
        s@ == percentage_text(current as nat, total as nat),
{
    if total == 0 {
        return String::from_str("0.0%");
    }
    proof {
        lemma2_to64();
        lemma2_to64_rest();
        lemma_pow2_adds(64, 8);
        lemma_pow2_adds(64, 52);
        lemma_pow2_adds(64, 47);
        assert(pow2(72) == 0x100_0000_0000_0000_0000);
        assert(pow2(116) == 0x10_0000_0000_0000_0000_0000_0000_0000);
        assert(pow2(111) == 0x8000_0000_0000_0000_0000_0000_0000);
    }
    let a = to_f64_value(current);
    let b = to_f64_value(total);
    let t: u128 = if a == 0 {
        0
    } else {
        let (mx, kx) = nearest_double(a, b);
        proof {
            if kx > 0 {
                lemma_scale_above(a as nat, b as nat, kx as int, 0, 64);
            }
            if kx < 0 {
                lemma_scale_below(a as nat, b as nat, kx as int, 64, 0);
            }
        }
        proof {
            if kx < 0 {
                if -kx < 12 {
                    lemma_pow2_strictly_increases((-kx) as nat, 12);
                }
                assert(pow2(12) == 0x1000);
                assert(pow2((-kx) as nat) <= 0x1000);
            } else {
                if kx < 116 {
                    lemma_pow2_strictly_increases(kx as nat, 116);
                }
                lemma_pow2_pos(kx as nat);
            }
        }
        let (pn, pd) = if kx >= 0 {
            (mx * 100, pow2_of(kx as u32))
        } else {
            let f = pow2_of((-kx) as u32);
            assert(mx * 100 * f <= 0x20_0000_0000_0000 * 100 * 0x1000) by (nonlinear_arith)
                requires
                    mx <= 0x20_0000_0000_0000,
                    f <= 0x1000,
            ;
            (mx * 100 * f, 1)
        };
        proof {
            lemma_double_as_ratio((mx * 100) as nat, kx as int);
            assert(pn == scaled_num((mx * 100) as nat, -kx as int));
            assert(pd == scaled_den(1, -kx as int));
            if kx < 0 {
                lemma_pow2_pos((-kx) as nat);
                assert(pn >= mx * 100) by (nonlinear_arith)
                    requires
                        pn == mx * 100 * pow2((-kx) as nat),
                        pow2((-kx) as nat) > 0,
                ;
                assert(pn <= 0x20_0000_0000_0000 * 100 * 0x1000) by (nonlinear_arith)
                    requires
                        pn == mx * 100 * pow2((-kx) as nat),
                        mx <= 0x20_0000_0000_0000,
                        pow2((-kx) as nat) <= 0x1000,
                ;
            }
        }
        let (mp, kp) = nearest_double(pn, pd);
        proof {
            assert(pow2(58) == 0x400_0000_0000_0000);
            assert(pn >= pow2(58));
            if kx >= 0 {
                assert(pn <= pow2(60));
                if kp > 0 {
                    lemma_scale_above(pn as nat, pd as nat, kp as int, 58, kx as nat);
                }
                if kp < 0 {
                    lemma_scale_below(pn as nat, pd as nat, kp as int, 60, kx as nat);
                }
            } else {
                if kp > 0 {
                    lemma_scale_above(pn as nat, pd as nat, kp as int, 58, 0);
                }
                if kp < 0 {
                    lemma_scale_below(pn as nat, pd as nat, kp as int, 72, 0);
                }
            }
            assert(-20 <= kp <= 111);
            lemma_double_as_ratio((10 * mp) as nat, kp as int);
        }
        if kp >= 0 {
            let d = pow2_of(kp as u32);
            proof {
                lemma_pow2_pos(kp as nat);
            }
            divide_round_half_even(10 * mp, d)
        } else {
            let m = pow2_of((-kp) as u32);
            proof {
                lemma_pow2_strictly_increases((-kp) as nat, 21);
                assert(pow2(21) == 0x20_0000);
                assert(10 * mp * m <= 10 * 0x20_0000_0000_0000 * 0x20_0000) by (nonlinear_arith)
                    requires
                        mp <= 0x20_0000_0000_0000,
                        m < 0x20_0000,
                ;
                let x = (10 * mp * m) as nat;
                vstd::arithmetic::div_mod::lemma_fundamental_div_mod_converse(x as int, 1, x as int, 0);
            }
            10 * mp * m
        }
    };
    let mut s = String::new();
    push_tenths(&mut s, t);
    s.append("%");
    assert(s@ =~= percentage_text(current as nat, total as nat));
    s
}

} // verus!
