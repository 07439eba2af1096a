//! Numbers with a fraction, held as the bits of their 64-bit representation:
//! one bit of sign, eleven of exponent, fifty-two of fraction.

use calamine::Data;
use vstd::prelude::*;

verus! {

/// The bits that a text is parsed into, where it writes a number.
pub uninterp spec fn parsed_bits(s: Seq<char>) -> Option<u64>;

/// The bits that stand for every value that is no number.
pub const NO_NUMBER: u64 = 0x7ff8_0000_0000_0000;

/// The bits with every value that is no number brought into one form.
pub open spec fn canonical(bits: Option<u64>) -> Option<u64> {
    match bits {
        Some(b) => if exponent(b) == 2047 && fraction(b) != 0 {
            Some(NO_NUMBER)
        } else {
            Some(b)
        },
        None => None,
    }
}

/// The bits of the number that a text writes, where it writes one.
pub open spec fn real_of(s: Seq<char>) -> Option<u64> {
    canonical(parsed_bits(s))
}

/// `str::parse` of std for a number with a fraction, as the bits of its 64-bit
/// representation. Which texts are numbers is std's grammar of them. Of a text
/// for what is no number, std leaves open which of several bits come back.
#[verifier::external_body]
pub(crate) fn parse_real(s: &str) -> (r: Option<u64>)
    ensures
        canonical(r) == canonical(parsed_bits(s@)),
{
    match s.parse().map(Data::Float) {
        Ok(Data::Float(number)) => Some(number.to_bits()),
        _ => None,
    }
}

/// Whether the bits are those of a finite number: neither infinite nor no
/// number at all.
pub open spec fn finite(bits: u64) -> bool {
    (bits / 0x10_0000_0000_0000) % 2048 != 2047
}

/// Whether the bits are those of a finite number.
pub fn is_finite(bits: u64) -> (b: bool)
    ensures
        b == finite(bits),
{
    (bits / 0x10_0000_0000_0000) % 2048 != 2047
}

/// The bits of the number that a text writes.
pub fn real_bits(s: &str) -> (r: Option<u64>)
    ensures
        r == real_of(s@),
{
    match parse_real(s) {
        Some(b) => if (b / 0x10_0000_0000_0000) % 2048 == 2047 && b % 0x10_0000_0000_0000 != 0 {
            Some(NO_NUMBER)
        } else {
            Some(b)
        },
        None => None,
    }
}

/// Two to a power.
pub open spec fn two_to(n: nat) -> nat
    decreases n,
{
    if n == 0 {
        1
    } else {
        2 * two_to((n - 1) as nat)
    }
}

/// Whether the sign is minus.
pub open spec fn negative(bits: u64) -> bool {
    bits >= 0x8000_0000_0000_0000
}

/// The exponent as it is stored.
pub open spec fn exponent(bits: u64) -> int {
    (bits / 0x10_0000_0000_0000) as int % 2048
}

/// The fraction as it is stored.
pub open spec fn fraction(bits: u64) -> int {
    bits as int % 0x10_0000_0000_0000
}

/// The whole digits of a finite number: its size is this times a power of two
/// that is given by `scale`.
pub open spec fn significand(bits: u64) -> int {
    if exponent(bits) == 0 {
        fraction(bits)
    } else {
        fraction(bits) + 0x10_0000_0000_0000
    }
}

/// The power of two that the significand is multiplied with.
pub open spec fn scale(bits: u64) -> int {
    (if exponent(bits) == 0 {
        1
    } else {
        exponent(bits)
    }) - 1075
}

/// The size of a finite number rounded to a whole one, halves away from zero.
pub open spec fn rounded_size(bits: u64) -> int {
    let k = scale(bits);
    if k >= 0 {
        significand(bits) * two_to(k as nat)
    } else {
        (2 * significand(bits) + two_to((-k) as nat)) / (2 * two_to((-k) as nat)) as int
    }
}

/// A number rounded to a whole one of 64 bits: halves away from zero, what is
/// too large or infinite as the largest or smallest, and no number as zero.
pub open spec fn rounded(bits: u64) -> int {
    if exponent(bits) == 2047 && fraction(bits) != 0 {
        0
    } else {
        let size = if exponent(bits) == 2047 {
            0x8000_0000_0000_0000
        } else {
            rounded_size(bits)
        };
        if negative(bits) {
            if size > 0x8000_0000_0000_0000 {
                -0x8000_0000_0000_0000
            } else {
                -size
            }
        } else if size > i64::MAX {
            i64::MAX as int
        } else {
            size
        }
    }
}

proof fn lemma_two_to_grows(a: nat, b: nat)
    requires
        a <= b,
    ensures
        two_to(a) <= two_to(b),
        two_to(a) > 0,
    decreases b,
{
    if b > 0 {
        if a == b {
            lemma_two_to_grows((a - 1) as nat, (b - 1) as nat);
        } else {
            lemma_two_to_grows(a, (b - 1) as nat);
        }
    }
}

proof fn lemma_powers()
    ensures
        two_to(10) == 1024,
        two_to(11) == 2048,
        two_to(54) == 0x40_0000_0000_0000,
        two_to(55) == 0x80_0000_0000_0000,
        two_to(61) == 0x2000_0000_0000_0000,
{
    reveal_with_fuel(two_to, 62);
}

fn power_of_two(n: u32) -> (p: u64)
    requires
        n <= 62,
    ensures
        p == two_to(n as nat),
{
    let mut p: u64 = 1;
    let mut i: u32 = 0;
    while i < n
        invariant
            i <= n <= 62,
            p == two_to(i as nat),
        decreases n - i,
    {
        proof {
            lemma_two_to_grows(i as nat, 61);
            lemma_powers();
        }
        p = 2 * p;
        i = i + 1;
    }
    p
}

/// `m` times two to the power `j`, or two to the 63rd where it is larger.
fn scaled_up(m: u64, j: u64) -> (n: u64)
    requires
        0x10_0000_0000_0000 <= m < 0x20_0000_0000_0000,
    ensures
        ({
            let size = m * two_to(j as nat);
            n == if size > 0x8000_0000_0000_0000 {
                0x8000_0000_0000_0000
            } else {
                size
            }
        }),
{
    proof {
        lemma_powers();
    }
    if j >= 11 {
        proof {
            lemma_two_to_grows(11, j as nat);
            let p = two_to(j as nat) as int;
            assert(m as int * p >= 0x10_0000_0000_0000 * 2048) by (nonlinear_arith)
                requires
                    m as int >= 0x10_0000_0000_0000,
                    p >= 2048,
            ;
        }
        0x8000_0000_0000_0000
    } else {
        let p: u64 = power_of_two(j as u32);
        proof {
            lemma_two_to_grows(j as nat, 10);
            assert(m as int * p as int <= 0x20_0000_0000_0000 * 1024) by (nonlinear_arith)
                requires
                    0 <= m as int <= 0x20_0000_0000_0000,
                    0 <= p as int <= 1024,
            ;
        }
        m * p
    }
}

/// `m` divided by two to the power `k`, halves up.
fn scaled_down(m: u64, k: u64) -> (n: u64)
    requires
        m < 0x20_0000_0000_0000,
        k > 0,
    ensures
        n == (2 * m + two_to(k as nat)) / (2 * two_to(k as nat)) as int,
        n <= 0x20_0000_0000_0000,
{
    proof {
        lemma_powers();
    }
    if k > 54 {
        proof {
            lemma_two_to_grows(55, k as nat);
            let p = two_to(k as nat) as int;
            let q = 2 * m as int + p;
            assert(q / (2 * p) == 0) by (nonlinear_arith)
                requires
                    0 <= q < 2 * p,
            ;
        }
        0
    } else {
        let p: u64 = power_of_two(k as u32);
        proof {
            lemma_two_to_grows(k as nat, 54);
            lemma_two_to_grows(1, k as nat);
            assert(two_to(1) == 2 * two_to(0));
            let q = 2 * m as int + p as int;
            assert(q / (2 * p as int) <= m as int) by (nonlinear_arith)
                requires
                    q == 2 * m as int + p as int,
                    m as int >= 0,
                    p as int >= 2,
            ;
        }
        (2 * m + p) / (2 * p)
    }
}

/// The size of a finite number rounded to a whole one, or two to the 63rd
/// where it is larger.
fn size_of(bits: u64) -> (n: u64)
    requires
        exponent(bits) != 2047,
    ensures
        n == if rounded_size(bits) > 0x8000_0000_0000_0000 {
            0x8000_0000_0000_0000
        } else {
            rounded_size(bits)
        },
{
    let e: u64 = (bits / 0x10_0000_0000_0000) % 2048;
    let f: u64 = bits % 0x10_0000_0000_0000;
    let m: u64 = if e == 0 {
        f
    } else {
        f + 0x10_0000_0000_0000
    };
    let x: u64 = if e == 0 {
        1
    } else {
        e
    };
    if x >= 1075 {
        scaled_up(m, x - 1075)
    } else {
        scaled_down(m, 1075 - x)
    }
}

/// A number rounded to a whole one of 64 bits.
pub fn round_real(bits: u64) -> (n: i64)
    ensures
        n == rounded(bits),
{
    let e: u64 = (bits / 0x10_0000_0000_0000) % 2048;
    let f: u64 = bits % 0x10_0000_0000_0000;
    if e == 2047 && f != 0 {
        return 0;
    }
    let size: u64 = if e == 2047 {
        0x8000_0000_0000_0000
    } else {
        size_of(bits)
    };
    if bits >= 0x8000_0000_0000_0000 {
        if size == 0x8000_0000_0000_0000 {
            i64::MIN
        } else {
            -(size as i64)
        }
    } else if size > 0x7fff_ffff_ffff_ffff {
        i64::MAX
    } else {
        size as i64
    }
}

} // verus!
