//! Integer codec: converts between a BER INTEGER / ENUMERATED payload
//! (a variable-length big-endian two's-complement byte sequence) and a
//! 64-bit signed integer.
//!
//! Decoding sign-extends payloads shorter than 8 bytes from the high bit of
//! the first byte and rejects payloads longer than 8 bytes; encoding emits
//! the minimal big-endian two's-complement representation.

use vstd::arithmetic::div_mod::lemma_fundamental_div_mod;
use vstd::arithmetic::mul::lemma_mul_inequality;
use vstd::arithmetic::power2::lemma2_to64;
use vstd::arithmetic::power2::lemma2_to64_rest;
use vstd::arithmetic::power2::lemma_pow2_adds;
use vstd::arithmetic::power2::lemma_pow2_pos;
use vstd::arithmetic::power2::pow2;
use vstd::prelude::*;

verus! {

/// The unsigned big-endian value of a byte sequence.
pub open spec fn spec_be_unsigned(s: Seq<u8>) -> int
    decreases s.len(),
{
    if s.len() == 0 {
        0
    } else {
        spec_be_unsigned(s.drop_last()) * 256 + s.last()
    }
}

/// The two's-complement big-endian value of a byte sequence: the unsigned
/// value, sign-corrected when the high bit of the first byte is set.
pub open spec fn spec_be_signed(s: Seq<u8>) -> int {
    if s.len() > 0 && s[0] >= 0x80 {
        spec_be_unsigned(s) - pow2((8 * s.len()) as nat)
    } else {
        spec_be_unsigned(s)
    }
}

/// The minimal big-endian two's-complement encoding of an integer.
pub open spec fn spec_ber_int(v: int) -> Seq<u8>
    decreases (if v < 0 {
        -v
    } else {
        v
    }),
    via spec_ber_int_decreases
{
    if -128 <= v < 128 {
        seq![(v % 256) as u8]
    } else {
        spec_ber_int((v - v % 256) / 256).push((v % 256) as u8)
    }
}

#[via_fn]
proof fn spec_ber_int_decreases(v: int) {
    if !(-128 <= v < 128) {
        lemma_euclid_div_256(v);
    }
}

/// Facts about the Euclidean quotient by 256 that the codec leans on: it
/// reconstructs the dividend, and it moves strictly toward zero.
proof fn lemma_euclid_div_256(v: int)
    ensures
        256 * ((v - v % 256) / 256) == v - v % 256,
        0 <= v % 256 < 256,
        v >= 128 ==> 0 <= (v - v % 256) / 256 < v,
        v < -128 ==> v < (v - v % 256) / 256 < 0,
{
    lemma_fundamental_div_mod(v, 256);
    assert(v - v % 256 == 256 * (v / 256));
    lemma_div_multiple_exact(v / 256);
    assert((v - v % 256) / 256 == v / 256);
    if v >= 128 {
        assert(0 <= v / 256 < v) by (nonlinear_arith)
            requires
                v >= 128,
                v == 256 * (v / 256) + v % 256,
                0 <= v % 256 < 256,
        ;
    }
    if v < -128 {
        assert(v < v / 256 < 0) by (nonlinear_arith)
            requires
                v < -128,
                v == 256 * (v / 256) + v % 256,
                0 <= v % 256 < 256,
        ;
    }
}

/// The Euclidean quotient of `256 * b` by 256 is `b`.
proof fn lemma_div_multiple_exact(b: int)
    ensures
        (256 * b) / 256 == b,
{
    lemma_fundamental_div_mod(256 * b, 256);
    assert((256 * b) % 256 == 0 && 256 * b == 256 * ((256 * b) / 256)) by (nonlinear_arith)
        requires
            256 * b == 256 * ((256 * b) / 256) + (256 * b) % 256,
            0 <= (256 * b) % 256 < 256,
    ;
}

/// The unsigned value of `n` bytes lies below `2^(8n)`, and is bracketed by
/// the value of the first byte.
pub proof fn lemma_be_unsigned_bounds(s: Seq<u8>)
    ensures
        0 <= spec_be_unsigned(s) < pow2((8 * s.len()) as nat),
        s.len() >= 1 ==> s[0] * pow2((8 * (s.len() - 1)) as nat) <= spec_be_unsigned(s) < (s[0]
            + 1) * pow2((8 * (s.len() - 1)) as nat),
    decreases s.len(),
{
    lemma2_to64();
    if s.len() == 0 {
    } else {
        let d = s.drop_last();
        lemma_be_unsigned_bounds(d);
        lemma_pow2_adds((8 * (s.len() - 1)) as nat, 8);
        lemma_mul_inequality(spec_be_unsigned(d), pow2((8 * (s.len() - 1)) as nat) - 1, 256);
        if s.len() >= 2 {
            assert(d[0] == s[0]);
            lemma_pow2_adds((8 * (s.len() - 2)) as nat, 8);
            let p = pow2((8 * (s.len() - 2)) as nat) as int;
            assert(s[0] * p * 256 == s[0] * (256 * p) && (s[0] + 1) * p * 256 == (s[0] + 1) * (256
                * p)) by (nonlinear_arith);
            lemma_mul_inequality(s[0] * p, spec_be_unsigned(d), 256);
            lemma_mul_inequality(spec_be_unsigned(d), (s[0] + 1) * p - 1, 256);
        }
    }
}

/// The signed value of `n >= 1` bytes lies in the closed-open interval
/// `[-2^(8n-1), 2^(8n-1))`.
pub proof fn lemma_be_signed_bounds(s: Seq<u8>)
    requires
        s.len() >= 1,
    ensures
        -pow2((8 * s.len() - 1) as nat) <= spec_be_signed(s) < pow2((8 * s.len() - 1) as nat),
{
    lemma_be_unsigned_bounds(s);
    let half = pow2((8 * s.len() - 1) as nat) as int;
    lemma_pow2_adds((8 * s.len() - 1) as nat, 1);
    lemma2_to64();
    assert(pow2((8 * s.len()) as nat) == half * 2);
    let p = pow2((8 * (s.len() - 1)) as nat) as int;
    lemma_pow2_adds((8 * (s.len() - 1)) as nat, 7);
    assert(p * 128 == half);
    if s[0] >= 0x80 {
        lemma_mul_inequality(128, s[0] as int, p);
        assert(128 * p == p * 128) by (nonlinear_arith);
        assert(s[0] * p == p * s[0]) by (nonlinear_arith);
    } else {
        lemma_mul_inequality(s[0] + 1, 128, p);
        assert((s[0] + 1) * p == p * (s[0] + 1) && 128 * p == p * 128) by (nonlinear_arith);
        lemma_pow2_pos((8 * s.len() - 1) as nat);
    }
}

/// Decodes a BER INTEGER / ENUMERATED payload to a 64-bit signed integer:
/// big-endian two's complement, sign-extended from the high bit of the first
/// byte. An empty payload decodes to zero; a payload of more than 8 bytes
/// does not fit and yields `None`.
pub fn ber_integer_to_i64(bv: Vec<u8>) -> (r: Option<i64>)
    ensures
        r is Some <==> bv@.len() <= 8,
        r matches Some(v) ==> v as int == spec_be_signed(bv@),
{
    if bv.len() > 8 {
        return None;
    }
    let n = bv.len();
    let mut acc: i128 = 0;
    let mut p: i128 = 1;
    let mut i: usize = 0;
    proof {
        assert(bv@.take(0) =~= Seq::<u8>::empty());
        lemma2_to64();
        lemma2_to64_rest();
    }
    while i < n
        invariant
            i <= n == bv@.len() <= 8,
            acc == spec_be_unsigned(bv@.take(i as int)),
            p == pow2((8 * i) as nat),
            0 <= acc < p,
            p <= 0x1_0000_0000_0000_0000,
        decreases n - i,
    {
        proof {
            lemma_pow2_adds((8 * i) as nat, 8);
            lemma2_to64();
            lemma2_to64_rest();
            assert(pow2((8 * (i + 1)) as nat) <= pow2(64)) by {
                if 8 * (i + 1) < 64 {
                    vstd::arithmetic::power2::lemma_pow2_strictly_increases(
                        (8 * (i + 1)) as nat,
                        64,
                    );
                }
            }
            let t = bv@.take(i + 1);
            assert(t.drop_last() =~= bv@.take(i as int));
            assert(t.last() == bv@[i as int]);
        }
        acc = acc * 256 + (bv[i] as i128);
        p = p * 256;
        i = i + 1;
    }
    proof {
        assert(bv@.take(n as int) =~= bv@);
    }
    if n > 0 && bv[0] >= 0x80 {
        proof {
            lemma_be_unsigned_bounds(bv@);
            lemma_be_signed_bounds(bv@);
            lemma_pow2_le_64((8 * n - 1) as nat);
        }
        Some((acc - p) as i64)
    } else {
        proof {
            if n > 0 {
                lemma_be_signed_bounds(bv@);
                lemma_pow2_le_64((8 * n - 1) as nat);
            }
        }
        Some(acc as i64)
    }
}

/// Appends the minimal big-endian two's-complement encoding of `v` to `out`.
fn push_ber_int(v: i128, out: &mut Vec<u8>)
    requires
        -0x8000_0000_0000_0000 <= v < 0x8000_0000_0000_0000,
    ensures
        final(out)@ == old(out)@ + spec_ber_int(v as int),
    decreases (if v < 0 {
        -(v as int)
    } else {
        v as int
    }),
{
    if -128 <= v && v < 128 {
        let b: u8 = if v < 0 {
            (v + 256) as u8
        } else {
            v as u8
        };
        out.push(b);
        proof {
            assert(out@ =~= old(out)@ + spec_ber_int(v as int));
        }
    } else {
        proof {
            lemma_euclid_div_256(v as int);
        }
        let m: i128 = if v >= 0 {
            v % 256
        } else {
            let r: i128 = (-v) % 256;
            if r == 0 {
                0
            } else {
                256 - r
            }
        };
        proof {
            if v < 0 {
                lemma_fundamental_div_mod(-(v as int), 256);
                lemma_fundamental_div_mod(v as int, 256);
                assert(m == (v as int) % 256) by (nonlinear_arith)
                    requires
                        v < 0,
                        -(v as int) == 256 * ((-(v as int)) / 256) + (-(v as int)) % 256,
                        0 <= (-(v as int)) % 256 < 256,
                        v as int == 256 * ((v as int) / 256) + (v as int) % 256,
                        0 <= (v as int) % 256 < 256,
                        m == (if (-(v as int)) % 256 == 0 {
                            0int
                        } else {
                            256 - (-(v as int)) % 256
                        }),
                ;
            }
        }
        let h: i128 = (v - m) / 256;
        proof {
            lemma_div_exact_i128(v as int, m as int);
        }
        push_ber_int(h, out);
        out.push(m as u8);
        proof {
            assert(out@ =~= old(out)@ + spec_ber_int(v as int));
        }
    }
}

/// Rust's truncating division agrees with Euclidean division on the exact
/// multiple `v - m`, where `m` is the Euclidean remainder of `v` by 256.
proof fn lemma_div_exact_i128(v: int, m: int)
    requires
        m == v % 256,
    ensures
        (v - m) % 256 == 0,
        v - m == 256 * ((v - m) / 256),
{
    lemma_fundamental_div_mod(v, 256);
    lemma_div_multiple_exact(v / 256);
    lemma_fundamental_div_mod(v - m, 256);
}

/// Encodes a 64-bit signed integer as its minimal big-endian
/// two's-complement byte sequence.
pub fn i64_to_ber_bytes(v: i64) -> (r: Vec<u8>)
    ensures
        r@ == spec_ber_int(v as int),
{
    let mut out: Vec<u8> = Vec::new();
    push_ber_int(v as i128, &mut out);
    proof {
        assert(out@ =~= spec_ber_int(v as int));
    }
    out
}

/// The encoding of an integer is non-empty and decodes back to it.
pub proof fn lemma_ber_int_round_trip(v: int)
    ensures
        spec_ber_int(v).len() >= 1,
        spec_be_signed(spec_ber_int(v)) == v,
    decreases (if v < 0 {
        -v
    } else {
        v
    }),
{
    lemma2_to64();
    if -128 <= v < 128 {
        let s = spec_ber_int(v);
        assert(s.drop_last() =~= Seq::<u8>::empty());
        lemma_fundamental_div_mod(v, 256);
        assert(s == seq![(v % 256) as u8]);
        assert(s[0] == (v % 256) as u8);
        assert(s.last() == (v % 256) as u8);
        assert(spec_be_unsigned(Seq::<u8>::empty()) == 0);
        assert(spec_be_unsigned(s) == v % 256);
        assert(pow2(8) == 256);
        if v < 0 {
            assert(v % 256 == v + 256);
            assert(s[0] as int == v + 256);
            assert(s[0] >= 0x80);
            assert(spec_be_signed(s) == (v + 256) - 256);
        } else {
            assert(v % 256 == v);
        }
    } else {
        lemma_euclid_div_256(v);
        let h = (v - v % 256) / 256;
        let l = v % 256;
        lemma_ber_int_round_trip(h);
        let eh = spec_ber_int(h);
        let e = spec_ber_int(v);
        assert(e == eh.push(l as u8));
        assert(e.drop_last() =~= eh);
        assert(e[0] == eh[0]);
        assert(spec_be_unsigned(e) == spec_be_unsigned(eh) * 256 + l);
        lemma_pow2_adds((8 * eh.len()) as nat, 8);
        assert(pow2((8 * e.len()) as nat) == pow2((8 * eh.len()) as nat) * 256);
        if eh[0] >= 0x80 {
            assert(spec_be_unsigned(eh) == h + pow2((8 * eh.len()) as nat));
            assert((h + pow2((8 * eh.len()) as nat)) * 256 == h * 256 + pow2(
                (8 * eh.len()) as nat,
            ) * 256) by (nonlinear_arith);
            assert(spec_be_signed(e) == h * 256 + l);
        } else {
            assert(spec_be_signed(e) == h * 256 + l);
        }
        assert(h * 256 + l == v);
    }
}

/// An integer within `[-2^(8n-1), 2^(8n-1))` encodes into at most `n` bytes.
pub proof fn lemma_ber_int_len(v: int, n: nat)
    requires
        n >= 1,
        -pow2((8 * n - 1) as nat) <= v < pow2((8 * n - 1) as nat),
    ensures
        spec_ber_int(v).len() <= n,
    decreases n,
{
    lemma2_to64();
    if -128 <= v < 128 {
    } else {
        lemma_euclid_div_256(v);
        let h = (v - v % 256) / 256;
        let half = pow2((8 * n - 1) as nat) as int;
        if n == 1 {
            assert(false);
        } else {
            let smaller = pow2((8 * (n - 1) - 1) as nat) as int;
            lemma_pow2_adds((8 * (n - 1) - 1) as nat, 8);
            assert(half == smaller * 256);
            assert(-smaller <= h < smaller) by (nonlinear_arith)
                requires
                    h == (v - v % 256) / 256,
                    256 * h == v - v % 256,
                    0 <= v % 256 < 256,
                    -(smaller * 256) <= v < smaller * 256,
            ;
            lemma_ber_int_len(h, (n - 1) as nat);
        }
    }
}

/// The deterministic rule by which a decoded message id is narrowed to 32
/// bits: reduce modulo `2^32` into `[-2^31, 2^31)`, keeping the low 32 bits.
pub open spec fn spec_narrow_to_i32(v: int) -> int {
    let m = v % 0x1_0000_0000;
    if m >= 0x8000_0000 {
        m - 0x1_0000_0000
    } else {
        m
    }
}

/// Narrows a 64-bit integer to 32 bits by truncation, as
/// [`spec_narrow_to_i32`] describes.
pub fn narrow_to_i32(v: i64) -> (r: i32)
    ensures
        r as int == spec_narrow_to_i32(v as int),
{
    proof {
        lemma_fundamental_div_mod(v as int, 0x1_0000_0000);
    }
    let w: i128 = v as i128;
    let m: i128 = if w >= 0 {
        w % 0x1_0000_0000
    } else {
        let r: i128 = (-w) % 0x1_0000_0000;
        if r == 0 {
            0
        } else {
            0x1_0000_0000 - r
        }
    };
    proof {
        if v < 0 {
            lemma_fundamental_div_mod(-(v as int), 0x1_0000_0000);
            assert(m == (v as int) % 0x1_0000_0000) by (nonlinear_arith)
                requires
                    v < 0,
                    w == v as int,
                    -(v as int) == 0x1_0000_0000 * ((-(v as int)) / 0x1_0000_0000) + (-(
                    v as int)) % 0x1_0000_0000,
                    0 <= (-(v as int)) % 0x1_0000_0000 < 0x1_0000_0000,
                    v as int == 0x1_0000_0000 * ((v as int) / 0x1_0000_0000) + (v as int)
                        % 0x1_0000_0000,
                    0 <= (v as int) % 0x1_0000_0000 < 0x1_0000_0000,
                    m == (if (-(v as int)) % 0x1_0000_0000 == 0 {
                        0int
                    } else {
                        0x1_0000_0000 - (-(v as int)) % 0x1_0000_0000
                    }),
            ;
        }
    }
    if m >= 0x8000_0000 {
        (m - 0x1_0000_0000) as i32
    } else {
        m as i32
    }
}

/// Narrowing leaves a value that already fits in 32 bits unchanged.
pub proof fn lemma_narrow_identity(v: int)
    requires
        -0x8000_0000 <= v < 0x8000_0000,
    ensures
        spec_narrow_to_i32(v) == v,
{
    if v >= 0 {
        assert(v % 0x1_0000_0000 == v) by (nonlinear_arith)
            requires
                0 <= v < 0x8000_0000,
        ;
    } else {
        assert(v % 0x1_0000_0000 == v + 0x1_0000_0000) by (nonlinear_arith)
            requires
                -0x8000_0000 <= v < 0,
        ;
    }
}

/// A power of two with exponent at most 63 is at most `2^63`.
proof fn lemma_pow2_le_64(e: nat)
    requires
        e <= 63,
    ensures
        pow2(e) <= pow2(63),
{
    if e < 63 {
        vstd::arithmetic::power2::lemma_pow2_strictly_increases(e, 63);
    }
}

} // verus!
