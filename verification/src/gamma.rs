//! The tone curve: a sensor sample, normalised by the white level and
//! gamma-corrected with exponent 1/2.2, as an 8-bit level.
//!
//! The curve is evaluated in integers. With `1/2.2 = 5/11`, the level of a
//! sample `s` under white level `w` is the largest `l` in `0..=255` with
//! `(l/255)^11 <= (s/w)^5`, that is `255 * (s/w)^(1/2.2)` rounded down.

use vstd::prelude::*;
use vstd::arithmetic::power::pow;
use crate::wide::{
    lemma_pow_base_increases,
    lemma_pow_base_strictly_increases,
    power,
    product_le,
    LARGE_FACTOR,
    SMALL_FACTOR,
};

verus! {

/// The brightest output level.
pub const MAX_LEVEL: u8 = 255;

/// The eleventh power of the brightest level, `255^11`.
pub const MAX_LEVEL_ELEVENTH: u128 = 296443535898840969287109375;

/// Whether `level` does not overshoot the curve at `sample / white`:
/// `(level / 255)^2.2 <= sample / white`, cleared of fractions.
pub open spec fn level_fits(level: int, sample: int, white: int) -> bool {
    pow(level, 11) * pow(white, 5) <= pow(255, 11) * pow(sample, 5)
}

/// The largest level up to `bound` that fits, and zero if none does.
pub open spec fn highest_fitting(bound: nat, sample: int, white: int) -> nat
    decreases bound,
{
    if bound == 0 {
        0
    } else if level_fits(bound as int, sample, white) {
        bound
    } else {
        highest_fitting((bound - 1) as nat, sample, white)
    }
}

/// The output level of `sample` under `white`: full white from the white
/// level on (and for a white level of zero), else the curve rounded down.
pub open spec fn gamma_level(sample: nat, white: nat) -> nat {
    if sample >= white {
        255
    } else {
        highest_fitting(255, sample as int, white as int)
    }
}

/// A level that fits while its successor does not is the level of the curve.
pub proof fn lemma_highest_fitting_is(level: nat, bound: nat, sample: int, white: int)
    requires
        0 <= sample,
        0 <= white,
        level <= bound,
        level_fits(level as int, sample, white),
        level < bound ==> !level_fits((level + 1) as int, sample, white),
    ensures
        highest_fitting(bound, sample, white) == level,
    decreases bound,
{
    if bound > level {
        if bound > level + 1 {
            lemma_pow_base_strictly_increases((level + 1) as int, bound as int, 11);
        }
        lemma_pow_base_increases(0, white, 5);
        let low = pow((level + 1) as int, 11);
        let high = pow(bound as int, 11);
        let w5 = pow(white, 5);
        assert(low * w5 <= high * w5) by (nonlinear_arith)
            requires
                low <= high,
                0 <= w5,
        ;
        lemma_highest_fitting_is(level, (bound - 1) as nat, sample, white);
    }
}

/// The level of the curve lies in `0..=255`, fits, and is the last that does:
/// it is `255 * (sample / white)^(1/2.2)` rounded down.
pub proof fn lemma_gamma_level_is_floor(sample: nat, white: nat)
    requires
        sample < white,
    ensures
        gamma_level(sample, white) <= 255,
        level_fits(gamma_level(sample, white) as int, sample as int, white as int),
        gamma_level(sample, white) < 255 ==> !level_fits(
            (gamma_level(sample, white) + 1) as int,
            sample as int,
            white as int,
        ),
{
    lemma_highest_fitting_is_last(255, sample as int, white as int);
}

proof fn lemma_highest_fitting_is_last(bound: nat, sample: int, white: int)
    requires
        0 <= sample,
        0 <= white,
    ensures
        highest_fitting(bound, sample, white) <= bound,
        level_fits(highest_fitting(bound, sample, white) as int, sample, white),
        highest_fitting(bound, sample, white) < bound ==> !level_fits(
            (highest_fitting(bound, sample, white) + 1) as int,
            sample,
            white,
        ),
    decreases bound,
{
    if bound == 0 {
        lemma_level_zero_fits(sample, white);
    } else if !level_fits(bound as int, sample, white) {
        lemma_highest_fitting_is_last((bound - 1) as nat, sample, white);
    }
}

proof fn lemma_level_zero_fits(sample: int, white: int)
    requires
        0 <= sample,
        0 <= white,
    ensures
        level_fits(0, sample, white),
{
    vstd::arithmetic::power::lemma0_pow(11);
    lemma_pow_base_increases(0, sample, 5);
    lemma_pow_base_increases(0, 255, 11);
    let c = pow(255, 11);
    let s5 = pow(sample, 5);
    assert(0 * pow(white, 5) <= c * s5) by (nonlinear_arith)
        requires
            0 <= c,
            0 <= s5,
    ;
}

/// Every level of the curve is a byte.
pub proof fn lemma_gamma_level_is_byte(sample: nat, white: nat)
    ensures
        gamma_level(sample, white) <= MAX_LEVEL,
{
    if sample < white {
        lemma_highest_fitting_is_last(255, sample as int, white as int);
    }
}

/// No sample is darker than black and none brighter than white: zero maps to
/// level 0 and the white level to level 255.
pub proof fn lemma_gamma_level_endpoints(white: nat)
    ensures
        gamma_level(white, white) == 255,
        white > 0 ==> gamma_level(0, white) == 0,
{
    if white > 0 {
        lemma_level_zero_fits(0, white as int);
        vstd::arithmetic::power::lemma0_pow(5);
        vstd::arithmetic::power::lemma_pow_positive(white as int, 5);
        vstd::arithmetic::power::lemma_pow_positive(1, 11);
        vstd::arithmetic::power::lemma1_pow(11);
        let w5 = pow(white as int, 5);
        let c = pow(255, 11);
        assert(c * 0 == 0) by (nonlinear_arith);
        assert(1 * w5 > 0) by (nonlinear_arith)
            requires
                w5 > 0,
        ;
        lemma_highest_fitting_is(0, 255, 0, white as int);
    }
}

/// The values of the two constant powers that bound the factors compared.
proof fn lemma_power_bounds()
    ensures
        pow(255, 11) == MAX_LEVEL_ELEVENTH,
        pow(65535, 5) == 1208833588708967444709375,
        pow(255, 11) < LARGE_FACTOR,
        pow(65535, 5) < SMALL_FACTOR,
{
    reveal_with_fuel(pow, 12);
}

/// Whether `level` fits at `sample / white`, from the fifth powers of the two.
fn fits(level: u8, sample_fifth: u128, white_fifth: u128) -> (r: bool)
    requires
        sample_fifth < SMALL_FACTOR,
        white_fifth < SMALL_FACTOR,
    ensures
        r == (pow(level as int, 11) * white_fifth <= pow(255, 11) * sample_fifth),
{
    proof {
        lemma_power_bounds();
        lemma_pow_base_increases(level as int, 255, 11);
    }
    let level_eleventh = power(level as u128, 11);
    product_le(level_eleventh, white_fifth, MAX_LEVEL_ELEVENTH, sample_fifth)
}

/// The 8-bit level of `sample` under the white level `white`.
pub fn tone_level(sample: u16, white: u16) -> (level: u8)
    ensures
        level == gamma_level(sample as nat, white as nat),
{
    if sample >= white {
        return MAX_LEVEL;
    }
    proof {
        lemma_power_bounds();
        lemma_pow_base_increases(sample as int, 65535, 5);
        lemma_pow_base_increases(white as int, 65535, 5);
        lemma_level_zero_fits(sample as int, white as int);
    }
    let sample_fifth = power(sample as u128, 5);
    let white_fifth = power(white as u128, 5);
    // `low` fits; `high`, unless it is 256, does not.
    let mut low: u16 = 0;
    let mut high: u16 = 256;
    while high - low > 1
        invariant
            low < high <= 256,
            sample_fifth == pow(sample as int, 5),
            white_fifth == pow(white as int, 5),
            sample_fifth < SMALL_FACTOR,
            white_fifth < SMALL_FACTOR,
            level_fits(low as int, sample as int, white as int),
            high <= 255 ==> !level_fits(high as int, sample as int, white as int),
        decreases high - low,
    {
        let middle: u16 = low + (high - low) / 2;
        if fits(middle as u8, sample_fifth, white_fifth) {
            low = middle;
        } else {
            high = middle;
        }
    }
    proof {
        lemma_highest_fitting_is(low as nat, 255, sample as int, white as int);
    }
    low as u8
}

/// The curve under one white level as a table: entry `s` is the level of
/// sample `s`, for every sample below the white level. Samples from the white
/// level on are full white and have no entry.
pub fn tone_table(white: u16) -> (table: Vec<u8>)
    ensures
        table.len() == white,
        forall|s: int| 0 <= s < white ==> table[s] == gamma_level(s as nat, white as nat),
{
    let mut table: Vec<u8> = Vec::new();
    let mut sample: u16 = 0;
    while sample < white
        invariant
            sample <= white,
            table.len() == sample,
            forall|s: int| 0 <= s < sample ==> table[s] == gamma_level(s as nat, white as nat),
        decreases white - sample,
    {
        table.push(tone_level(sample, white));
        sample = sample + 1;
    }
    table
}

/// Looks the level of `sample` up in the table of its white level.
pub fn table_level(table: &Vec<u8>, sample: u16) -> (level: u8)
    ensures
        level == (if sample < table.len() {
            table[sample as int]
        } else {
            MAX_LEVEL
        }),
{
    let index = sample as usize;
    if index < table.len() {
        table[index]
    } else {
        MAX_LEVEL
    }
}

} // verus!
