use vstd::prelude::*;
use vstd::arithmetic::power2::{pow2, lemma_pow2_strictly_increases, lemma2_to64};

verus! {

/// A number as the scanner orders it: not a number, an infinity (the flag
/// says negative), or the finite value `(-1)^neg * mant * 2^exp`.
#[derive(Clone, Copy, Debug, PartialEq, Eq, Structural)]
pub enum Number {
    NaN,
    Infinite(bool),
    Finite(bool, u64, i32),
}

/// Exponents of finite numbers stay within this bound.
pub open spec fn exp_in_range(n: Number) -> bool {
    match n {
        Number::Finite(_, _, e) => -1100 <= e <= 1100,
        _ => true,
    }
}

/// Sign of a finite number: -1, 0 or 1.
pub open spec fn finite_sign(neg: bool, mant: u64) -> int {
    if mant == 0 {
        0
    } else if neg {
        -1
    } else {
        1
    }
}

/// `m1 * 2^e1 < m2 * 2^e2` over exact values.
pub open spec fn mag_lt(m1: nat, e1: int, m2: nat, e2: int) -> bool {
    if e1 >= e2 {
        m1 * pow2((e1 - e2) as nat) < m2
    } else {
        m1 < m2 * pow2((e2 - e1) as nat)
    }
}

/// Strict order of two numbers by their exact values; NaN is unordered.
pub open spec fn num_lt(a: Number, b: Number) -> bool {
    match (a, b) {
        (Number::NaN, _) => false,
        (_, Number::NaN) => false,
        (Number::Infinite(na), Number::Infinite(nb)) => na && !nb,
        (Number::Infinite(na), Number::Finite(_, _, _)) => na,
        (Number::Finite(_, _, _), Number::Infinite(nb)) => !nb,
        (Number::Finite(na, ma, ea), Number::Finite(nb, mb, eb)) => {
            let sa = finite_sign(na, ma);
            let sb = finite_sign(nb, mb);
            if sa != sb {
                sa < sb
            } else if sa == 0 {
                false
            } else if sa > 0 {
                mag_lt(ma as nat, ea as int, mb as nat, eb as int)
            } else {
                mag_lt(mb as nat, eb as int, ma as nat, ea as int)
            }
        },
    }
}

/// `a <= b` by exact value; false when either is NaN.
pub open spec fn num_le(a: Number, b: Number) -> bool {
    a != Number::NaN && b != Number::NaN && !num_lt(b, a)
}

/// The number that an IEEE-754 binary32 bit pattern denotes.
pub open spec fn f32_number(bits: u32) -> Number {
    let neg = bits >= 0x8000_0000;
    let e = (bits / 0x80_0000) % 0x100;
    let f = bits % 0x80_0000;
    if e == 0xff {
        if f == 0 {
            Number::Infinite(neg)
        } else {
            Number::NaN
        }
    } else if e == 0 {
        Number::Finite(neg, f as u64, -149i32)
    } else {
        Number::Finite(neg, (f + 0x80_0000) as u64, (e - 150) as i32)
    }
}

/// The number that an IEEE-754 binary64 bit pattern denotes.
pub open spec fn f64_number(bits: u64) -> Number {
    let neg = bits >= 0x8000_0000_0000_0000;
    let e = (bits / 0x10_0000_0000_0000) % 0x800;
    let f = bits % 0x10_0000_0000_0000;
    if e == 0x7ff {
        if f == 0 {
            Number::Infinite(neg)
        } else {
            Number::NaN
        }
    } else if e == 0 {
        Number::Finite(neg, f as u64, -1074i32)
    } else {
        Number::Finite(neg, (f + 0x10_0000_0000_0000) as u64, (e - 1075) as i32)
    }
}

/// Largest magnitude below which every integer is a binary64 value.
pub const F64_EXACT_LIMIT: u64 = 0x20_0000_0000_0000;

/// How many low bits of `m` a binary64 significand cannot hold.
pub open spec fn shift_for(m: nat) -> nat
    decreases m,
{
    if m < F64_EXACT_LIMIT {
        0
    } else {
        1 + shift_for(m / 2)
    }
}

/// The significand of `m` rounded to 53 bits, to nearest with ties to even;
/// `m` is about `rounded_mant(m) * 2^shift_for(m)`.
pub open spec fn rounded_mant(m: nat) -> nat {
    let s = shift_for(m);
    if s == 0 {
        m
    } else {
        let p = pow2(s);
        let q = m / p;
        let r = m % p;
        let half = p / 2;
        if r > half || (r == half && q % 2 == 1) {
            q + 1
        } else {
            q
        }
    }
}

/// The number that an integer denotes once converted to binary64 (as `as
/// f64` does: exact below 2^53, else rounded to nearest, ties to even).
pub open spec fn int_number(v: int) -> Number {
    let m: nat = if v < 0 {
        (-v) as nat
    } else {
        v as nat
    };
    Number::Finite(v < 0, rounded_mant(m) as u64, shift_for(m) as i32)
}

/// Rounds a magnitude to a binary64 significand and exponent.
fn round_to_f64(m: u64) -> (r: (u64, i32))
    ensures
        r.0 as nat == rounded_mant(m as nat),
        r.1 as int == shift_for(m as nat),
        0 <= r.1 <= 11,
{
    if m < F64_EXACT_LIMIT {
        return (m, 0);
    }
    let mut x: u64 = m;
    let mut p: u64 = 1;
    let mut s: u32 = 0;
    proof {
        lemma2_to64();
        vstd::arithmetic::div_mod::lemma_div_by_multiple(m as int, 1);
    }
    while x >= F64_EXACT_LIMIT
        invariant
            p as nat == pow2(s as nat),
            p >= 1,
            x as nat == (m as nat) / (p as nat),
            shift_for(m as nat) == s + shift_for(x as nat),
            (x as nat) * (p as nat) <= m,
            s <= 11,
        decreases x,
    {
        proof {
            assert((x as nat) * (p as nat) <= m);
            assert(x >= F64_EXACT_LIMIT);
            assert((p as nat) * F64_EXACT_LIMIT <= (x as nat) * (p as nat)) by (nonlinear_arith)
                requires
                    x >= F64_EXACT_LIMIT,
                    p >= 1,
            ;
            assert(p < 0x800);
            lemma2_to64();
            if s >= 11 {
                if s > 11 {
                    lemma_pow2_strictly_increases(11, s as nat);
                }
                assert(false);
            }
            vstd::arithmetic::div_mod::lemma_div_denominator(m as int, p as int, 2);
            vstd::arithmetic::power2::lemma_pow2_unfold((s + 1) as nat);
            assert((x as nat / 2) * ((p * 2) as nat) <= (x as nat) * (p as nat)) by (nonlinear_arith);
        }
        x = x / 2;
        p = p * 2;
        s = s + 1;
        proof {
            assert(pow2(s as nat) == 2 * pow2((s - 1) as nat));
        }
    }
    proof {
        assert(shift_for(m as nat) == s);
        vstd::arithmetic::div_mod::lemma_fundamental_div_mod(m as int, p as int);
    }
    let r = m - x * p;
    let half = p / 2;
    let q = if r > half || (r == half && x % 2 == 1) {
        x + 1
    } else {
        x
    };
    (q, s as i32)
}

/// Decodes a binary32 bit pattern.
pub fn number_from_f32_bits(bits: u32) -> (r: Number)
    ensures
        r == f32_number(bits),
        exp_in_range(r),
{
    let neg = bits >= 0x8000_0000;
    let e = (bits / 0x80_0000) % 0x100;
    let f = bits % 0x80_0000;
    if e == 0xff {
        if f == 0 {
            Number::Infinite(neg)
        } else {
            Number::NaN
        }
    } else if e == 0 {
        Number::Finite(neg, f as u64, -149i32)
    } else {
        Number::Finite(neg, (f + 0x80_0000) as u64, (e as i32) - 150)
    }
}

/// Decodes a binary64 bit pattern.
pub fn number_from_f64_bits(bits: u64) -> (r: Number)
    ensures
        r == f64_number(bits),
        exp_in_range(r),
{
    let neg = bits >= 0x8000_0000_0000_0000;
    let e = (bits / 0x10_0000_0000_0000) % 0x800;
    let f = bits % 0x10_0000_0000_0000;
    if e == 0x7ff {
        if f == 0 {
            Number::Infinite(neg)
        } else {
            Number::NaN
        }
    } else if e == 0 {
        Number::Finite(neg, f, -1074)
    } else {
        Number::Finite(neg, f + 0x10_0000_0000_0000, (e as i32) - 1075)
    }
}

/// The number of a signed 64-bit integer, converted to binary64.
pub fn number_from_i64(v: i64) -> (r: Number)
    ensures
        r == int_number(v as int),
        exp_in_range(r),
{
    let m: u64 = if v == i64::MIN {
        0x8000_0000_0000_0000
    } else if v < 0 {
        (-v) as u64
    } else {
        v as u64
    };
    let (q, e) = round_to_f64(m);
    Number::Finite(v < 0, q, e)
}

/// The number of an unsigned 64-bit integer, converted to binary64.
pub fn number_from_u64(v: u64) -> (r: Number)
    ensures
        r == int_number(v as int),
        exp_in_range(r),
{
    let (q, e) = round_to_f64(v);
    Number::Finite(false, q, e)
}

proof fn lemma_large_scale(m: nat, d: nat, other: nat)
    requires
        m >= 1,
        d >= 64,
        other < 0x1_0000_0000_0000_0000,
    ensures
        m * pow2(d) > other,
{
    lemma2_to64();
    if d > 64 {
        lemma_pow2_strictly_increases(64, d);
    }
    assert(pow2(d) >= 0x1_0000_0000_0000_0000);
    assert(m * pow2(d) >= pow2(d)) by (nonlinear_arith)
        requires
            m >= 1,
    ;
}

/// Compares `m * 2^d` with `other`: -1 when less, 0 when equal, 1 when greater.
fn scaled_cmp(m: u64, d: u32, other: u64) -> (r: i8)
    ensures
        r == -1 <==> (m as nat) * pow2(d as nat) < other,
        r == 0 <==> (m as nat) * pow2(d as nat) == other,
        r == 1 <==> (m as nat) * pow2(d as nat) > other,
{
    if m == 0 {
        assert((m as nat) * pow2(d as nat) == 0);
        return if other == 0 {
            0
        } else {
            -1
        };
    }
    if d >= 64 {
        proof {
            lemma_large_scale(m as nat, d as nat, other as nat);
        }
        return 1;
    }
    let mut p: u128 = 1;
    let mut i: u32 = 0;
    proof {
        lemma2_to64();
    }
    while i < d
        invariant
            i <= d,
            d < 64,
            p as nat == pow2(i as nat),
        decreases d - i,
    {
        proof {
            lemma2_to64();
            lemma_pow2_strictly_increases(i as nat, 64);
            vstd::arithmetic::power2::lemma_pow2_unfold((i + 1) as nat);
        }
        p = p * 2;
        i = i + 1;
    }
    proof {
        lemma2_to64();
        lemma_pow2_strictly_increases(d as nat, 64);
        assert((m as nat) * (p as nat) < 0x1_0000_0000_0000_0000 * 0x1_0000_0000_0000_0000)
            by (nonlinear_arith)
            requires
                m < 0x1_0000_0000_0000_0000,
                p < 0x1_0000_0000_0000_0000,
        ;
    }
    let x: u128 = (m as u128) * p;
    let o: u128 = other as u128;
    if x < o {
        -1
    } else if x == o {
        0
    } else {
        1
    }
}

/// Exact `m1 * 2^e1 < m2 * 2^e2`.
fn mag_lt_exec(m1: u64, e1: i32, m2: u64, e2: i32) -> (r: bool)
    requires
        -1100 <= e1 <= 1100,
        -1100 <= e2 <= 1100,
    ensures
        r == mag_lt(m1 as nat, e1 as int, m2 as nat, e2 as int),
{
    if e1 >= e2 {
        scaled_cmp(m1, (e1 - e2) as u32, m2) == -1
    } else {
        scaled_cmp(m2, (e2 - e1) as u32, m1) == 1
    }
}

fn sign_exec(neg: bool, mant: u64) -> (r: i8)
    ensures
        r as int == finite_sign(neg, mant),
{
    if mant == 0 {
        0
    } else if neg {
        -1
    } else {
        1
    }
}

/// Strict order of two numbers by exact value.
pub fn number_lt(a: Number, b: Number) -> (r: bool)
    requires
        exp_in_range(a),
        exp_in_range(b),
    ensures
        r == num_lt(a, b),
{
    match (a, b) {
        (Number::NaN, _) => false,
        (_, Number::NaN) => false,
        (Number::Infinite(na), Number::Infinite(nb)) => na && !nb,
        (Number::Infinite(na), Number::Finite(_, _, _)) => na,
        (Number::Finite(_, _, _), Number::Infinite(nb)) => !nb,
        (Number::Finite(na, ma, ea), Number::Finite(nb, mb, eb)) => {
            let sa = sign_exec(na, ma);
            let sb = sign_exec(nb, mb);
            if sa != sb {
                sa < sb
            } else if sa == 0 {
                false
            } else if sa > 0 {
                mag_lt_exec(ma, ea, mb, eb)
            } else {
                mag_lt_exec(mb, eb, ma, ea)
            }
        },
    }
}

/// `a <= b` by exact value; false when either is NaN.
pub fn number_le(a: Number, b: Number) -> (r: bool)
    requires
        exp_in_range(a),
        exp_in_range(b),
    ensures
        r == num_le(a, b),
{
    let a_nan = match a {
        Number::NaN => true,
        _ => false,
    };
    let b_nan = match b {
        Number::NaN => true,
        _ => false,
    };
    !a_nan && !b_nan && !number_lt(b, a)
}

} // verus!
