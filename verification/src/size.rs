//! Human-readable byte sizes (`512 B`, `1.5 KB`), computed exactly in integers: the count
//! is taken as the nearest double (ties to even), divided by the unit, and shown with one
//! decimal rounded half to even.

use vstd::prelude::*;
use vstd::arithmetic::power2::{pow2, lemma_pow2_pos, lemma_pow2_adds, lemma2_to64, lemma_pow2_strictly_increases};
use crate::text::{chars_of, dec_seq, extend_chars, fmt_i64, fmt_u64, int_seq, string_of};

verus! {

/// `1024^k`.
pub open spec fn pow1024(k: nat) -> nat
    decreases k,
{
    if k == 0 {
        1
    } else {
        1024 * pow1024((k - 1) as nat)
    }
}

/// How many times a count of units can still be divided by 1024 while it is at least 1024.
pub open spec fn size_exp(n: int) -> nat
    decreases n,
{
    if n >= 1024 {
        1 + size_exp(n / 1024)
    } else {
        0
    }
}

/// `a / d` rounded to the nearest integer, ties to even.
pub open spec fn round_div_even(a: nat, d: nat) -> nat {
    let q = a / d;
    let r = a % d;
    if 2 * r > d || (2 * r == d && q % 2 == 1) {
        q + 1
    } else {
        q
    }
}

/// The smallest `s` from `s0` up to 10 with `b < 2^(53 + s)`.
pub open spec fn shift_from(b: nat, s: nat) -> nat
    decreases 11 - s,
{
    if s >= 11 || b < pow2(53 + s) {
        s
    } else {
        shift_from(b, s + 1)
    }
}

/// The count as a double: exact below `2^53`, otherwise rounded to 53 significant bits,
/// ties to even.
pub open spec fn as_double(b: nat) -> nat {
    if b < pow2(53) {
        b
    } else {
        let d = pow2(shift_from(b, 0));
        round_div_even(b, d) * d
    }
}

pub open spec fn unit_letter(e: nat) -> char {
    if e == 0 {
        'K'
    } else if e == 1 {
        'M'
    } else if e == 2 {
        'G'
    } else if e == 3 {
        'T'
    } else if e == 4 {
        'P'
    } else {
        'E'
    }
}

/// The size in tenths of its unit.
pub open spec fn size_tenths(b: int) -> nat {
    round_div_even(as_double(b as nat) * 10, pow1024(size_exp(b / 1024) + 1))
}

/// `<b> B` below 1024, else the size in the largest unit that keeps it at least 1, with one
/// decimal: `1.5 KB`, `1.0 GB`.
pub open spec fn format_bytes_spec(b: int) -> Seq<char> {
    if b < 1024 {
        int_seq(b) + " B"@
    } else {
        let t = size_tenths(b);
        dec_seq(t / 10) + "."@ + dec_seq(t % 10) + " "@ + seq![unit_letter(size_exp(b / 1024))] + "B"@
    }
}

proof fn lemma_size_exp_bound(n: int, k: nat)
    requires
        0 <= n < pow1024(k + 1),
    ensures
        size_exp(n) <= k,
    decreases k,
{
    if n >= 1024 {
        if k == 0 {
            assert(pow1024(1) == 1024) by {
                reveal_with_fuel(pow1024, 2);
            }
        } else {
            assert(pow1024(k + 1) == 1024 * pow1024(k));
            assert(n / 1024 < pow1024(k)) by {
                vstd::arithmetic::div_mod::lemma_multiply_divide_lt(n, 1024, pow1024(k) as int);
            }
            lemma_size_exp_bound(n / 1024, (k - 1) as nat);
        }
    }
}

proof fn lemma_shift(b: nat, s: nat)
    requires
        s <= 11,
        b < pow2(63),
    ensures
        s <= shift_from(b, s) <= 10 || (s == 11 && shift_from(b, s) == 11),
        shift_from(b, s) <= 10 ==> b < pow2(53 + shift_from(b, s)),
    decreases 11 - s,
{
    if s < 11 && b >= pow2(53 + s) {
        if s == 10 {
            assert(false);
        }
        lemma_shift(b, s + 1);
    }
}

fn round_even_exec(a: u128, d: u128) -> (r: u128)
    requires
        0 < d < 0x1_0000_0000_0000_0000_0000,
        a < 0x1_0000_0000_0000_0000_0000_0000_0000_0000 - 1,
    ensures
        r == round_div_even(a as nat, d as nat),
        r <= a / d + 1,
{
    let q = a / d;
    let rem = a % d;
    assert(q <= a) by {
        vstd::arithmetic::div_mod::lemma_div_is_ordered_by_denominator(a as int, 1, d as int);
    }
    if 2 * rem > d || (2 * rem == d && q % 2 == 1) {
        q + 1
    } else {
        q
    }
}

/// A byte count for people to read (see `format_bytes_spec`).
pub fn format_bytes(b: i64) -> (r: String)
    ensures
        r@ == format_bytes_spec(b as int),
{
    if b < 1024 {
        let mut v = fmt_i64(b);
        extend_chars(&mut v, &chars_of(" B"));
        return string_of(&v);
    }
    let ghost e0 = size_exp(b / 1024);
    let mut n: i64 = b / 1024;
    let mut e: usize = 0;
    let mut div: u128 = 1024;
    proof {
        lemma2_to64();
        assert(pow1024(1) == 1024) by {
            reveal_with_fuel(pow1024, 2);
        }
        assert(b / 1024 < pow1024(6)) by {
            reveal_with_fuel(pow1024, 7);
        }
        lemma_size_exp_bound(b / 1024, 5);
    }
    while n >= 1024
        invariant
            0 <= n,
            e0 == size_exp(b / 1024),
            e0 <= 5,
            size_exp(n as int) + e == e0,
            div == pow1024((e + 1) as nat),
        decreases n,
    {
        proof {
            assert(pow1024((e + 2) as nat) == 1024 * pow1024((e + 1) as nat));
            assert(e + 1 <= 5);
            assert(pow1024((e + 1) as nat) <= pow1024(6)) by {
                lemma_pow1024_mono((e + 1) as nat, 6);
            }
            assert(pow1024(6) == 0x1000_0000_0000_0000) by {
                reveal_with_fuel(pow1024, 7);
            }
        }
        div = div * 1024;
        e = e + 1;
        n = n / 1024;
    }
    let bv = b as u128;
    let p53: u128 = 0x20_0000_0000_0000;
    proof {
        assert(pow2(53) == 0x20_0000_0000_0000) by {
            vstd::arithmetic::power2::lemma2_to64_rest();
        }
        assert(pow2(63) == 0x8000_0000_0000_0000) by {
            vstd::arithmetic::power2::lemma2_to64_rest();
        }
    }
    let x: u128 = if bv < p53 {
        bv
    } else {
        let mut s: usize = 0;
        let mut p: u128 = p53;
        let mut d: u128 = 1;
        proof {
            lemma_shift(bv as nat, 0);
            vstd::arithmetic::power2::lemma2_to64();
        }
        while s < 11 && bv >= p
            invariant
                s <= 11,
                bv < pow2(63),
                p == pow2((53 + s) as nat),
                d == pow2(s as nat),
                shift_from(bv as nat, s as nat) == shift_from(bv as nat, 0),
                shift_from(bv as nat, 0) <= 10,
                s <= shift_from(bv as nat, 0),
            decreases 11 - s,
        {
            proof {
                lemma_shift(bv as nat, s as nat);
                vstd::arithmetic::power2::lemma_pow2_unfold((54 + s) as nat);
                vstd::arithmetic::power2::lemma_pow2_unfold((s + 1) as nat);
                assert(p < pow2(63)) by {
                    if s >= 10 {
                        lemma_pow2_strictly_increases((53 + s) as nat, 63);
                    }
                }
                assert(pow2(63) == 0x8000_0000_0000_0000) by {
                    vstd::arithmetic::power2::lemma2_to64_rest();
                }
                assert(d <= 1024) by {
                    if s < 10 {
                        lemma_pow2_strictly_increases(s as nat, 10);
                    }
                    vstd::arithmetic::power2::lemma2_to64();
                }
            }
            p = p * 2;
            d = d * 2;
            s = s + 1;
        }
        proof {
            lemma_pow2_pos(s as nat);
        }
        let q = round_even_exec(bv, d);
        proof {
            vstd::arithmetic::div_mod::lemma_fundamental_div_mod(bv as int, d as int);
        }
        assert(q * d <= bv + d) by (nonlinear_arith)
            requires
                q <= bv / d + 1,
                d * (bv / d) + bv % d == bv,
                bv % d >= 0,
                d > 0,
        ;
        q * d
    };
    assert(x == as_double(bv as nat));
    assert(x <= 0x8000_0000_0000_0000 + 1024);
    proof {
        lemma_pow1024_pos((e + 1) as nat);
    }
    assert(div >= 1024) by {
        lemma_pow1024_mono(1, (e + 1) as nat);
        assert(pow1024(1) == 1024) by {
            reveal_with_fuel(pow1024, 2);
        }
    }
    assert(div <= 0x1000_0000_0000_0000) by {
        lemma_pow1024_mono((e + 1) as nat, 6);
        assert(pow1024(6) == 0x1000_0000_0000_0000) by {
            reveal_with_fuel(pow1024, 7);
        }
    }
    let t = round_even_exec(x * 10, div);
    assert((x * 10) / (div as int) <= (x * 10) / 1024) by {
        vstd::arithmetic::div_mod::lemma_div_is_ordered_by_denominator((x * 10) as int, 1024, div as int);
    }
    assert(t / 10 < 0x1_0000_0000_0000_0000);
    let whole = (t / 10) as u64;
    let frac = (t % 10) as u64;
    let mut v = fmt_u64(whole);
    v.push('.');
    extend_chars(&mut v, &fmt_u64(frac));
    v.push(' ');
    let unit = if e == 0 {
        'K'
    } else if e == 1 {
        'M'
    } else if e == 2 {
        'G'
    } else if e == 3 {
        'T'
    } else if e == 4 {
        'P'
    } else {
        'E'
    };
    v.push(unit);
    v.push('B');
    proof {
        reveal_strlit(".");
        reveal_strlit(" ");
        reveal_strlit("B");
        reveal_strlit(" B");
    }
    assert(v@ =~= dec_seq((t / 10) as nat) + "."@ + dec_seq((t % 10) as nat) + " "@ + seq![unit_letter(e0)] + "B"@);
    string_of(&v)
}

proof fn lemma_pow1024_pos(k: nat)
    ensures
        pow1024(k) > 0,
    decreases k,
{
    if k > 0 {
        lemma_pow1024_pos((k - 1) as nat);
    }
}

proof fn lemma_pow1024_mono(a: nat, b: nat)
    requires
        a <= b,
    ensures
        pow1024(a) <= pow1024(b),
    decreases b - a,
{
    if a < b {
        lemma_pow1024_mono(a, (b - 1) as nat);
        lemma_pow1024_pos((b - 1) as nat);
    }
}

} // verus!
