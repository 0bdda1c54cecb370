//! Fixed-point conventions shared by the buffer, the envelope and the voices.
use vstd::prelude::*;

verus! {

/// One whole sample in a Q16 read position, and a ratio of 1 in a Q16 pitch ratio.
pub const FRAC_ONE: u64 = 65536;

/// Full level in a Q32 envelope or sustain level.
pub const LEVEL_ONE: u64 = 4294967296;

/// Bound on every Q16 read position: a buffer of up to `u32::MAX` samples fits under it.
pub const MAX_POS: u64 = 281474976710656;

/// Full scale (an amplitude of 1) of a sample.
pub const SAMPLE_ONE: u64 = 16777216;

/// Q16 percentage of 100%.
pub const PERCENT_100: u64 = 6553600;

/// `x * num / den`, rounded toward zero.
pub open spec fn scale_spec(x: int, num: int, den: int) -> int {
    if x >= 0 {
        (x * num) / den
    } else {
        -(((-x) * num) / den)
    }
}

/// Linear interpolation from `a` (at `frac == 0`) toward `b` (at `frac == FRAC_ONE`),
/// with the step rounded toward zero.
pub open spec fn lerp_spec(a: int, b: int, frac: int) -> int {
    a + scale_spec(b - a, frac, FRAC_ONE as int)
}

proof fn lemma_scale_bound(m: int, num: int, den: int)
    requires
        0 <= m,
        0 <= num <= den,
        0 < den,
    ensures
        0 <= (m * num) / den <= m,
{
    assert(0 <= m * num <= m * den) by (nonlinear_arith)
        requires
            0 <= m,
            0 <= num <= den,
    ;
    vstd::arithmetic::div_mod::lemma_div_is_ordered(m * num, m * den, den);
    vstd::arithmetic::div_mod::lemma_div_by_multiple(m, den);
    vstd::arithmetic::div_mod::lemma_div_pos_is_pos(m * num, den);
}

/// Scales `x` by `num / den` (at most 1), rounding toward zero.
pub fn scale(x: i64, num: u64, den: u64) -> (r: i64)
    requires
        -0x1_0000_0000 <= x <= 0x1_0000_0000,
        0 < den <= 0x1_0000_0000,
        num <= den,
    ensures
        r == scale_spec(x as int, num as int, den as int),
        -0x1_0000_0000 <= r <= 0x1_0000_0000,
        x >= 0 ==> 0 <= r <= x,
        x < 0 ==> x <= r <= 0,
{
    let neg = x < 0;
    let m: u64 = if neg {
        (-x) as u64
    } else {
        x as u64
    };
    assert(m * num <= 0x1_0000_0000 * 0x1_0000_0000) by (nonlinear_arith)
        requires
            m <= 0x1_0000_0000,
            num <= 0x1_0000_0000,
    ;
    let p: u128 = (m as u128) * (num as u128);
    let q: u128 = p / (den as u128);
    proof {
        lemma_scale_bound(m as int, num as int, den as int);
    }
    if neg {
        -(q as i64)
    } else {
        q as i64
    }
}

/// Interpolates between two samples at a Q16 fraction.
pub fn lerp(a: i32, b: i32, frac: u64) -> (r: i32)
    requires
        frac < FRAC_ONE,
    ensures
        r == lerp_spec(a as int, b as int, frac as int),
        a <= b ==> a <= r <= b,
        b <= a ==> b <= r <= a,
{
    let d: i64 = (b as i64) - (a as i64);
    let s = scale(d, frac, FRAC_ONE);
    (a as i64 + s) as i32
}

/// `2^(k / 12)` in Q16, rounded to nearest, for the semitones `k` of one octave.
pub open spec fn semitone_spec(k: int) -> int {
    if k == 0 {
        65536
    } else if k == 1 {
        69433
    } else if k == 2 {
        73562
    } else if k == 3 {
        77936
    } else if k == 4 {
        82570
    } else if k == 5 {
        87480
    } else if k == 6 {
        92682
    } else if k == 7 {
        98193
    } else if k == 8 {
        104032
    } else if k == 9 {
        110218
    } else if k == 10 {
        116772
    } else {
        123715
    }
}

/// The Q16 playback-rate ratio `2^(d / 12)` for an offset of `d` semitones: the ratio of
/// the semitone within its octave, doubled for each octave up and halved (rounding down)
/// for each octave down.
pub open spec fn pitch_ratio_spec(d: int) -> int {
    let oct = d / 12;
    let semi = d % 12;
    if oct >= 0 {
        semitone_spec(semi) * vstd::arithmetic::power2::pow2(oct as nat)
    } else {
        semitone_spec(semi) / (vstd::arithmetic::power2::pow2((-oct) as nat) as int)
    }
}

fn semitone(k: u64) -> (r: u64)
    requires
        k < 12,
    ensures
        r == semitone_spec(k as int),
{
    if k == 0 {
        65536
    } else if k == 1 {
        69433
    } else if k == 2 {
        73562
    } else if k == 3 {
        77936
    } else if k == 4 {
        82570
    } else if k == 5 {
        87480
    } else if k == 6 {
        92682
    } else if k == 7 {
        98193
    } else if k == 8 {
        104032
    } else if k == 9 {
        110218
    } else if k == 10 {
        116772
    } else {
        123715
    }
}

fn pow2_small(n: u64) -> (r: u64)
    requires
        n <= 11,
    ensures
        r == vstd::arithmetic::power2::pow2(n as nat),
        1 <= r <= 2048,
{
    let mut p: u64 = 1;
    let mut i: u64 = 0;
    proof {
        vstd::arithmetic::power2::lemma2_to64();
    }
    while i < n
        invariant
            i <= n <= 11,
            p == vstd::arithmetic::power2::pow2(i as nat),
            1 <= p,
        decreases n - i,
    {
        proof {
            vstd::arithmetic::power2::lemma_pow2_unfold((i + 1) as nat);
            vstd::arithmetic::power2::lemma2_to64();
            if i < 10 {
                vstd::arithmetic::power2::lemma_pow2_strictly_increases(i as nat, 11);
            }
        }
        p = p * 2;
        i = i + 1;
    }
    proof {
        vstd::arithmetic::power2::lemma2_to64();
        if n < 11 {
            vstd::arithmetic::power2::lemma_pow2_strictly_increases(n as nat, 11);
        }
    }
    p
}

/// The Q16 playback-rate ratio for an offset of `d` semitones.
pub fn pitch_ratio(d: i32) -> (r: u64)
    requires
        -127 <= d <= 127,
    ensures
        r == pitch_ratio_spec(d as int),
        r <= 123715 * 1024,
{
    let oct: i32 = if d >= 0 {
        d / 12
    } else {
        -((-d + 11) / 12)
    };
    let semi: i32 = d - oct * 12;
    assert(oct == d / 12 && semi == d % 12) by {
        vstd::arithmetic::div_mod::lemma_fundamental_div_mod(d as int, 12);
    }
    let base = semitone(semi as u64);
    if oct >= 0 {
        let p = pow2_small(oct as u64);
        proof {
            vstd::arithmetic::power2::lemma2_to64();
            if oct < 10 {
                vstd::arithmetic::power2::lemma_pow2_strictly_increases(oct as nat, 10);
            }
            assert(p <= 1024);
        }
        assert(base * p <= 123715 * 1024) by (nonlinear_arith)
            requires
                base <= 123715,
                p <= 1024,
        ;
        base * p
    } else {
        let p = pow2_small((-oct) as u64);
        base / p
    }
}

} // verus!
