//! A binary32 temperature pattern written with exactly two fractional digits,
//! rounded to nearest with ties to even, as Rust's `{:.2}` writes it.
use vstd::prelude::*;
use vstd::arithmetic::power2::{lemma2_to64, lemma2_to64_rest, lemma_pow2_adds, lemma_pow2_strictly_increases, lemma_pow2_unfold, pow2};
use vstd::string::StringExecFns;
use crate::render::{digit_char, digits_text, push_char, push_digits};

verus! {

pub open spec fn sign_bit(b: u32) -> bool {
    b >= 0x8000_0000
}

pub open spec fn exponent_field(b: u32) -> nat {
    ((b / 0x80_0000) % 256) as nat
}

pub open spec fn fraction_field(b: u32) -> nat {
    (b % 0x80_0000) as nat
}

/// The integer significand: the fraction, with the hidden bit when normal.
pub open spec fn significand(b: u32) -> nat {
    if exponent_field(b) == 0 {
        fraction_field(b)
    } else {
        fraction_field(b) + 0x80_0000
    }
}

/// The power of two the significand is scaled by, plus 150.
pub open spec fn biased_scale(b: u32) -> nat {
    if exponent_field(b) == 0 {
        1
    } else {
        exponent_field(b)
    }
}

/// `n / 2^k` rounded to the nearest integer, ties to even.
pub open spec fn round_shift(n: nat, k: nat) -> nat {
    let d = pow2(k);
    let q = n / d;
    let r = n % d;
    if 2 * r > d || (2 * r == d && q % 2 == 1) {
        q + 1
    } else {
        q
    }
}

/// The magnitude of a finite pattern with two fractional digits.
pub open spec fn magnitude_text(b: u32) -> Seq<char> {
    let m = significand(b);
    let s = biased_scale(b);
    if s >= 150 {
        digits_text(m * pow2((s - 150) as nat)) + ".00"@
    } else {
        let c = round_shift(m * 100, (150 - s) as nat);
        digits_text(c / 100) + seq!['.', digit_char(((c % 100) / 10) as int), digit_char((c % 10) as int)]
    }
}

/// The text of a binary32 pattern: `inf`, `-inf`, `NaN`, or a signed
/// decimal with two fractional digits.
pub open spec fn two_decimal_text(b: u32) -> Seq<char> {
    if exponent_field(b) == 255 {
        if fraction_field(b) != 0 {
            "NaN"@
        } else if sign_bit(b) {
            "-inf"@
        } else {
            "inf"@
        }
    } else if sign_bit(b) {
        seq!['-'] + magnitude_text(b)
    } else {
        magnitude_text(b)
    }
}

fn push_digit(out: &mut String, d: u64)
    requires
        d < 10,
    ensures
        final(out)@ == old(out)@.push(digit_char(d as int)),
{
    push_char(out, ((d as u8) + 48) as char);
}

/// Writes the binary32 pattern `bits` with exactly two fractional digits.
pub fn temperature_text(bits: u32) -> (r: String)
    ensures
        r@ == two_decimal_text(bits),
{
    let exp = (bits / 0x80_0000) % 256;
    let frac = bits % 0x80_0000;
    let neg = bits >= 0x8000_0000;
    if exp == 255 {
        proof {
            reveal_strlit("NaN");
            reveal_strlit("-inf");
            reveal_strlit("inf");
        }
        return if frac != 0 {
            String::from_str("NaN")
        } else if neg {
            String::from_str("-inf")
        } else {
            String::from_str("inf")
        };
    }
    let mut out = String::new();
    if neg {
        push_char(&mut out, '-');
    }
    let ghost start = out@;
    let m: u64 = if exp == 0 { frac as u64 } else { frac as u64 + 0x80_0000 };
    let scale: u32 = if exp == 0 { 1 } else { exp };
    proof {
        lemma2_to64();
        lemma2_to64_rest();
    }
    if scale >= 150 {
        let e = scale - 150;
        let mut v: u128 = m as u128;
        let mut i: u32 = 0;
        proof {
            lemma_pow2_strictly_increases(24, 127);
            lemma_pow2_adds(64, 63);
        }
        while i < e
            invariant
                e <= 104,
                i <= e,
                v == m * pow2(i as nat),
                v < pow2(24 + i as nat),
                m < 0x100_0000,
                pow2(24) == 0x100_0000,
                pow2(127) == 0x8000_0000_0000_0000_0000_0000_0000_0000,
            decreases e - i,
        {
            proof {
                lemma_pow2_unfold(i as nat + 1);
                lemma_pow2_unfold(24 + i as nat + 1);
                if 24 + i < 127 {
                    lemma_pow2_strictly_increases((24 + i) as nat, 127);
                }
                assert(m * pow2(i as nat + 1) == 2 * (m * pow2(i as nat))) by (nonlinear_arith)
                    requires
                        pow2(i as nat + 1) == 2 * pow2(i as nat),
                ;
            }
            v = v * 2;
            i = i + 1;
        }
        push_digits(&mut out, v);
        out.append(".00");
    } else {
        let k = 150 - scale;
        let n: u64 = m * 100;
        let c: u64 = if k >= 32 {
            proof {
                if k > 32 {
                    lemma_pow2_strictly_increases(32, k as nat);
                }
                assert(n < pow2(k as nat));
                assert((n as nat) / pow2(k as nat) == 0) by {
                    vstd::arithmetic::div_mod::lemma_basic_div(n as int, pow2(k as nat) as int);
                }
                assert((n as nat) % pow2(k as nat) == n) by {
                    vstd::arithmetic::div_mod::lemma_small_mod(n as nat, pow2(k as nat));
                }
            }
            0
        } else {
            let mut d: u64 = 1;
            let mut j: u32 = 0;
            while j < k
                invariant
                    k < 32,
                    j <= k,
                    d == pow2(j as nat),
                    pow2(32) == 0x1_0000_0000,
                decreases k - j,
            {
                proof {
                    lemma_pow2_unfold(j as nat + 1);
                    lemma_pow2_strictly_increases(j as nat + 1, 32);
                }
                d = d * 2;
                j = j + 1;
            }
            let q = n / d;
            let r = n % d;
            if 2 * r > d || (2 * r == d && q % 2 == 1) {
                q + 1
            } else {
                q
            }
        };
        proof {
            assert(c == round_shift((m * 100) as nat, k as nat));
        }
        push_digits(&mut out, (c / 100) as u128);
        push_char(&mut out, '.');
        push_digit(&mut out, (c % 100) / 10);
        push_digit(&mut out, c % 10);
    }
    proof {
        assert(out@ =~= start + magnitude_text(bits));
        if neg {
            assert(out@ =~= seq!['-'] + magnitude_text(bits));
        } else {
            assert(out@ =~= magnitude_text(bits));
        }
    }
    out
}

} // verus!
