//! The arithmetic behind the operations: byte reinterpretation, truncating
//! division and the saturating factorial.

use crate::nonzero::NonZeroI8;
use vstd::arithmetic::div_mod::lemma_div_denominator;
use vstd::prelude::*;

verus! {

/// The byte with the bit pattern of the signed 8-bit integer `a`.
pub open spec fn byte_of(a: i8) -> u8 {
    if a >= 0 {
        a as u8
    } else {
        (a + 256) as u8
    }
}

/// The signed 8-bit integer with the bit pattern of the byte `b`.
pub open spec fn signed_of(b: u8) -> i8 {
    if b < 128 {
        b as i8
    } else {
        (b - 256) as i8
    }
}

/// Reinterpreting a signed integer as a byte and back changes nothing.
pub proof fn lemma_signed_of_byte_of(a: i8)
    ensures
        signed_of(byte_of(a)) == a,
{
}

/// Reinterpreting a byte as a signed integer and back changes nothing.
pub proof fn lemma_byte_of_signed_of(b: u8)
    ensures
        byte_of(signed_of(b)) == b,
{
}

/// Reinterprets a signed 8-bit integer as a byte.
pub fn i8_to_byte(a: i8) -> (b: u8)
    ensures
        b == byte_of(a),
{
    if a >= 0 {
        a as u8
    } else {
        (a as i16 + 256) as u8
    }
}

/// Reinterprets a byte as a signed 8-bit integer.
pub fn byte_to_i8(b: u8) -> (a: i8)
    ensures
        a == signed_of(b),
{
    if b < 128 {
        b as i8
    } else {
        (b as i16 - 256) as i8
    }
}

/// The magnitude of `v`.
pub open spec fn magnitude(v: int) -> nat {
    if v < 0 {
        (-v) as nat
    } else {
        v as nat
    }
}

/// The quotient of `a` by `b`, rounded toward zero.
pub open spec fn trunc_div(a: int, b: int) -> int
    recommends
        b != 0,
{
    if (a < 0) == (b < 0) {
        (magnitude(a) / magnitude(b)) as int
    } else {
        -((magnitude(a) / magnitude(b)) as int)
    }
}

/// The remainder that `trunc_div` leaves: it has the sign of `a`.
pub open spec fn trunc_rem(a: int, b: int) -> int
    recommends
        b != 0,
{
    if a < 0 {
        -((magnitude(a) % magnitude(b)) as int)
    } else {
        (magnitude(a) % magnitude(b)) as int
    }
}

/// Quotient and remainder make up the dividend again.
pub proof fn lemma_trunc_div_rem(a: int, b: int)
    requires
        b != 0,
    ensures
        a == b * trunc_div(a, b) + trunc_rem(a, b),
        magnitude(trunc_rem(a, b)) < magnitude(b),
{
    let ma = magnitude(a) as int;
    let mb = magnitude(b) as int;
    let q = ma / mb;
    let r = ma % mb;
    assert(ma == mb * q + r && 0 <= r < mb) by (nonlinear_arith)
        requires
            mb > 0,
            ma >= 0,
            q == ma / mb,
            r == ma % mb,
    ;
    assert(b * (-q) == -(b * q) && (-b) * q == -(b * q) && (-b) * (-q) == b * q)
        by (nonlinear_arith);
}

/// Divides a signed 8-bit integer by a divisor, rounding toward zero. The
/// result is wide enough for every quotient, -128 by -1 included.
pub fn div_i8(a: i8, divisor: NonZeroI8) -> (r: i64)
    ensures
        r == trunc_div(a as int, divisor.value() as int),
{
    let b: i8 = divisor.get();
    let ma: u16 = if a < 0 { (0 - a as i16) as u16 } else { a as u16 };
    let mb: u16 = if b < 0 { (0 - b as i16) as u16 } else { b as u16 };
    let q: u16 = ma / mb;
    assert(q <= ma) by (nonlinear_arith)
        requires
            q == ma / mb,
            mb > 0,
    ;
    if (a < 0) == (b < 0) {
        q as i64
    } else {
        0 - q as i64
    }
}

/// The remainder of dividing a signed 8-bit integer by a divisor, with the
/// sign of the dividend.
pub fn rem_i8(a: i8, divisor: NonZeroI8) -> (r: i64)
    ensures
        r == trunc_rem(a as int, divisor.value() as int),
{
    let b: i8 = divisor.get();
    let ma: u16 = if a < 0 { (0 - a as i16) as u16 } else { a as u16 };
    let mb: u16 = if b < 0 { (0 - b as i16) as u16 } else { b as u16 };
    let m: u16 = ma % mb;
    assert(m < mb) by (nonlinear_arith)
        requires
            m == ma % mb,
            mb > 0,
    ;
    if a < 0 {
        0 - m as i64
    } else {
        m as i64
    }
}

/// The product of the integers from 1 to `n`.
pub open spec fn factorial(n: nat) -> nat
    decreases n,
{
    if n == 0 {
        1
    } else {
        n * factorial((n - 1) as nat)
    }
}

/// `v`, or the greatest signed 64-bit integer where `v` is greater.
pub open spec fn clamp_i64(v: nat) -> i64 {
    if v > i64::MAX {
        i64::MAX
    } else {
        v as i64
    }
}

/// A factorial is at least 1.
pub proof fn lemma_factorial_positive(n: nat)
    ensures
        factorial(n) >= 1,
    decreases n,
{
    if n > 0 {
        lemma_factorial_positive((n - 1) as nat);
        assert(n * factorial((n - 1) as nat) >= 1) by (nonlinear_arith)
            requires
                n >= 1,
                factorial((n - 1) as nat) >= 1,
        ;
    }
}

/// The factorial of `n`, held at the greatest signed 64-bit integer where the
/// product is greater. It never wraps.
pub fn saturating_factorial(n: u8) -> (r: i64)
    ensures
        r == clamp_i64(factorial(n as nat)),
{
    let mut acc: i64 = 1;
    let mut i: u8 = 0;
    while i < n
        invariant
            i <= n,
            acc == clamp_i64(factorial(i as nat)),
            acc >= 1,
        decreases n - i,
    {
        let ghost before = factorial(i as nat);
        i = i + 1;
        proof {
            lemma_factorial_positive((i - 1) as nat);
            assert(factorial(i as nat) == i as nat * before);
            assert(i as nat * before >= before) by (nonlinear_arith)
                requires
                    i >= 1,
            ;
            if before > i64::MAX && i >= 2 {
                assert(i64::MAX * i > i64::MAX) by (nonlinear_arith)
                    requires
                        i >= 2,
                ;
            }
        }
        acc = match acc.checked_mul(i as i64) {
            Some(v) => v,
            None => i64::MAX,
        };
    }
    acc
}

/// The unsigned 64-bit number with the bit pattern of `num` in two's
/// complement.
pub open spec fn unsigned_of(num: i64) -> nat {
    if num >= 0 {
        num as nat
    } else {
        (num + 0x1_0000_0000_0000_0000) as nat
    }
}

/// The signed 64-bit integer with the bit pattern of `u`.
pub open spec fn signed_of_u64(u: nat) -> i64
    recommends
        u < 0x1_0000_0000_0000_0000,
{
    if u < 0x8000_0000_0000_0000 {
        u as i64
    } else {
        (u - 0x1_0000_0000_0000_0000) as i64
    }
}

/// The eight bytes of `u`, most significant first.
pub open spec fn be_bytes(u: nat) -> Seq<u8>
    recommends
        u < 0x1_0000_0000_0000_0000,
{
    seq![
        ((u / 0x100_0000_0000_0000) % 256) as u8,
        ((u / 0x1_0000_0000_0000) % 256) as u8,
        ((u / 0x100_0000_0000) % 256) as u8,
        ((u / 0x1_0000_0000) % 256) as u8,
        ((u / 0x100_0000) % 256) as u8,
        ((u / 0x1_0000) % 256) as u8,
        ((u / 0x100) % 256) as u8,
        (u % 256) as u8,
    ]
}

/// The number that eight bytes stand for, most significant first.
pub open spec fn be_value(b: Seq<u8>) -> nat
    recommends
        b.len() == 8,
{
    (b[0] * 0x100_0000_0000_0000 + b[1] * 0x1_0000_0000_0000 + b[2] * 0x100_0000_0000 + b[3]
        * 0x1_0000_0000 + b[4] * 0x100_0000 + b[5] * 0x1_0000 + b[6] * 0x100 + b[7]) as nat
}

/// Eight bytes stand for a number below 2^64, and its bytes are those eight.
pub proof fn lemma_be_bytes_of_value(b: Seq<u8>)
    requires
        b.len() == 8,
    ensures
        be_value(b) < 0x1_0000_0000_0000_0000,
        be_bytes(be_value(b)) == b,
{
    let u = be_value(b) as int;
    let p1 = b[0] as int;
    let p2 = p1 * 0x100 + b[1];
    let p3 = p2 * 0x100 + b[2];
    let p4 = p3 * 0x100 + b[3];
    let p5 = p4 * 0x100 + b[4];
    let p6 = p5 * 0x100 + b[5];
    let p7 = p6 * 0x100 + b[6];
    assert(u == p7 * 0x100 + b[7]);
    assert(u / 0x100 == p7 && u % 0x100 == b[7]);
    assert(p7 / 0x100 == p6 && p7 % 0x100 == b[6]);
    assert(p6 / 0x100 == p5 && p6 % 0x100 == b[5]);
    assert(p5 / 0x100 == p4 && p5 % 0x100 == b[4]);
    assert(p4 / 0x100 == p3 && p4 % 0x100 == b[3]);
    assert(p3 / 0x100 == p2 && p3 % 0x100 == b[2]);
    assert(p2 / 0x100 == p1 && p2 % 0x100 == b[1]);
    lemma_div_denominator(u, 0x100, 0x100);
    lemma_div_denominator(u, 0x1_0000, 0x100);
    lemma_div_denominator(u, 0x100_0000, 0x100);
    lemma_div_denominator(u, 0x1_0000_0000, 0x100);
    lemma_div_denominator(u, 0x100_0000_0000, 0x100);
    lemma_div_denominator(u, 0x1_0000_0000_0000, 0x100);
    assert(u / 0x1_0000 == p6);
    assert(u / 0x100_0000 == p5);
    assert(u / 0x1_0000_0000 == p4);
    assert(u / 0x100_0000_0000 == p3);
    assert(u / 0x1_0000_0000_0000 == p2);
    assert(u / 0x100_0000_0000_0000 == p1);
    assert(p1 % 256 == b[0]);
    assert(be_bytes(be_value(b)) =~= b);
}

/// The bytes of a number below 2^64 stand for that number.
pub proof fn lemma_be_value_of_bytes(u: nat)
    requires
        u < 0x1_0000_0000_0000_0000,
    ensures
        be_bytes(u).len() == 8,
        be_value(be_bytes(u)) == u,
{
    let u = u as int;
    let q1 = u / 0x100;
    let q2 = q1 / 0x100;
    let q3 = q2 / 0x100;
    let q4 = q3 / 0x100;
    let q5 = q4 / 0x100;
    let q6 = q5 / 0x100;
    let q7 = q6 / 0x100;
    lemma_div_denominator(u, 0x100, 0x100);
    lemma_div_denominator(u, 0x1_0000, 0x100);
    lemma_div_denominator(u, 0x100_0000, 0x100);
    lemma_div_denominator(u, 0x1_0000_0000, 0x100);
    lemma_div_denominator(u, 0x100_0000_0000, 0x100);
    lemma_div_denominator(u, 0x1_0000_0000_0000, 0x100);
    assert(q2 == u / 0x1_0000);
    assert(q3 == u / 0x100_0000);
    assert(q4 == u / 0x1_0000_0000);
    assert(q5 == u / 0x100_0000_0000);
    assert(q6 == u / 0x1_0000_0000_0000);
    assert(q7 == u / 0x100_0000_0000_0000);
    assert(u == q1 * 0x100 + u % 256);
    assert(q1 == q2 * 0x100 + q1 % 256);
    assert(q2 == q3 * 0x100 + q2 % 256);
    assert(q3 == q4 * 0x100 + q3 % 256);
    assert(q4 == q5 * 0x100 + q4 % 256);
    assert(q5 == q6 * 0x100 + q5 % 256);
    assert(q6 == q7 * 0x100 + q6 % 256);
    assert(q7 < 256);
}

/// A signed 64-bit integer is read back from its own bit pattern.
pub proof fn lemma_signed_round_trip(num: i64)
    ensures
        unsigned_of(num) < 0x1_0000_0000_0000_0000,
        signed_of_u64(unsigned_of(num)) == num,
{
}

/// The eight bytes of `num` in two's complement, most significant first.
pub fn i64_to_be(num: i64) -> (v: Vec<u8>)
    ensures
        v@ == be_bytes(unsigned_of(num)),
{
    let u: u64 = if num >= 0 {
        num as u64
    } else {
        (num - i64::MIN) as u64 + 0x8000_0000_0000_0000
    };
    let mut v: Vec<u8> = Vec::new();
    v.push(((u / 0x100_0000_0000_0000) % 256) as u8);
    v.push(((u / 0x1_0000_0000_0000) % 256) as u8);
    v.push(((u / 0x100_0000_0000) % 256) as u8);
    v.push(((u / 0x1_0000_0000) % 256) as u8);
    v.push(((u / 0x100_0000) % 256) as u8);
    v.push(((u / 0x1_0000) % 256) as u8);
    v.push(((u / 0x100) % 256) as u8);
    v.push((u % 256) as u8);
    assert(v@ =~= be_bytes(unsigned_of(num)));
    v
}

/// The signed 64-bit integer whose two's complement is the eight bytes `b`,
/// most significant first. `None` where `b` is not eight bytes long.
pub fn i64_from_be(b: &[u8]) -> (num: Option<i64>)
    ensures
        num == if b@.len() == 8 {
            Some(signed_of_u64(be_value(b@)))
        } else {
            None
        },
{
    if b.len() != 8 {
        return None;
    }
    let mut u: u64 = b[0] as u64;
    u = u * 256 + b[1] as u64;
    u = u * 256 + b[2] as u64;
    u = u * 256 + b[3] as u64;
    u = u * 256 + b[4] as u64;
    u = u * 256 + b[5] as u64;
    u = u * 256 + b[6] as u64;
    u = u * 256 + b[7] as u64;
    if u < 0x8000_0000_0000_0000 {
        Some(u as i64)
    } else {
        Some((u - 0x8000_0000_0000_0000) as i64 + i64::MIN)
    }
}

/// The factorial of 20 is the last that fits a signed 64-bit integer.
pub proof fn lemma_factorial_20()
    ensures
        factorial(20) == 2432902008176640000,
        factorial(21) == 51090942171709440000,
{
    assert(factorial(0) == 1);
    assert(factorial(1) == 1 * factorial(0));
    assert(factorial(2) == 2 * factorial(1));
    assert(factorial(3) == 3 * factorial(2));
    assert(factorial(4) == 4 * factorial(3));
    assert(factorial(5) == 5 * factorial(4));
    assert(factorial(6) == 6 * factorial(5));
    assert(factorial(7) == 7 * factorial(6));
    assert(factorial(8) == 8 * factorial(7));
    assert(factorial(9) == 9 * factorial(8));
    assert(factorial(10) == 10 * factorial(9));
    assert(factorial(11) == 11 * factorial(10));
    assert(factorial(12) == 12 * factorial(11));
    assert(factorial(13) == 13 * factorial(12));
    assert(factorial(14) == 14 * factorial(13));
    assert(factorial(15) == 15 * factorial(14));
    assert(factorial(16) == 16 * factorial(15));
    assert(factorial(17) == 17 * factorial(16));
    assert(factorial(18) == 18 * factorial(17));
    assert(factorial(19) == 19 * factorial(18));
    assert(factorial(20) == 20 * factorial(19));
    assert(factorial(21) == 21 * factorial(20));
}

/// A greater number has no smaller factorial.
pub proof fn lemma_factorial_grows(m: nat, n: nat)
    requires
        m <= n,
    ensures
        factorial(m) <= factorial(n),
    decreases n - m,
{
    if m < n {
        lemma_factorial_grows(m, (n - 1) as nat);
        lemma_factorial_positive((n - 1) as nat);
        assert(n * factorial((n - 1) as nat) >= factorial((n - 1) as nat)) by (nonlinear_arith)
            requires
                n >= 1,
        ;
    }
}

/// Saturation law: up to 20 the factorial is exact, and from 21 on it is held
/// at the greatest signed 64-bit integer.
pub proof fn lemma_factorial_saturation(n: nat)
    ensures
        n <= 20 ==> clamp_i64(factorial(n)) == factorial(n),
        n > 20 ==> clamp_i64(factorial(n)) == i64::MAX,
{
    lemma_factorial_20();
    if n <= 20 {
        lemma_factorial_grows(n, 20);
    } else {
        lemma_factorial_grows(21, n);
    }
}

} // verus!
