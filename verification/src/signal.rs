//! One signal: its full parameter set and the quantizer that forces every
//! sample into the representable integer range.

use vstd::prelude::*;
use vstd::arithmetic::power2::{pow2, lemma2_to64, lemma2_to64_rest, lemma_pow2_strictly_increases};
use vstd::bits::lemma_u64_shl_is_mul;

use crate::fixed::{
    Fixed, MICROS_PER_UNIT, HALF_UNIT, abs_int, trunc_div, trunc_rem, round_units, floor_units,
    ceil_units, div_trunc, rem_trunc, rem_euclid_exec, lemma_trunc_div_bound,
    lemma_trunc_div_strict, lemma_mul_abs_bound, lemma_floor_ceil_units,
    floor_units_exec, ceil_units_exec,
};
use crate::rng::rand_range;
use crate::signal_type::{SignalType, name_of};

verus! {

/// Largest magnitude, in micro-units, accepted for the amplitude, period,
/// phase, scale and offset parameters (one million whole units).
pub const PARAM_RAW_LIMIT: i128 = 1_000_000_000_000;

/// Largest magnitude, in micro-units, accepted for the minimum and maximum
/// bounds; derived bounds always stay within it.
pub const BOUND_RAW_LIMIT: i128 = 10_000_000_000_000_000_000_000_000_000_000;

/// Largest magnitude, in micro-units, accepted for the time argument.
pub const TIME_RAW_LIMIT: i128 = 1_000_000_000_000_000_000;

/// Magnitude bound, in micro-units, on each noise draw (one percent).
pub const NOISE_RAW_LIMIT: i128 = 10_000;

/// The circle constant 2*pi in micro-units.
pub const TWO_PI_RAW: i128 = 6_283_185;

/// Half the circle constant, pi, in micro-units.
pub const PI_RAW: i128 = 3_141_593;

/// A concrete signal: a waveform family together with its complete
/// parameter set.
#[derive(Clone, Copy, Debug, PartialEq, Eq, Structural)]
pub struct Signal {
    pub signal_type: SignalType,
    pub minimum: Fixed,
    pub maximum: Fixed,
    pub amplitude: Fixed,
    pub period: Fixed,
    pub phase: Fixed,
    pub num_bits: u8,
    pub is_signed: bool,
    pub scale: Fixed,
    pub offset: Fixed,
}

/// `v` forced into the interval `[lo, hi]`.
pub open spec fn clamp_raw(v: int, lo: int, hi: int) -> int
    recommends
        lo <= hi,
{
    if v < lo {
        lo
    } else if v > hi {
        hi
    } else {
        v
    }
}

/// Product of two micro-unit quantities, truncated back to micro-units.
pub open spec fn fx_mul(a: int, b: int) -> int {
    trunc_div(a * b, MICROS_PER_UNIT as int)
}

/// `a` saturated into the `i64` range, as Rust's float-to-int casts do.
pub open spec fn sat_i64(a: int) -> int {
    if a > i64::MAX {
        i64::MAX as int
    } else if a < i64::MIN {
        i64::MIN as int
    } else {
        a
    }
}

/// Highest integer code representable in `num_bits` bits.
pub open spec fn bits_hi(num_bits: u8, is_signed: bool) -> int
    recommends
        1 <= num_bits,
{
    if is_signed {
        pow2((num_bits - 1) as nat) - 1
    } else {
        pow2(num_bits as nat) - 1
    }
}

/// Lowest integer code representable in `num_bits` bits.
pub open spec fn bits_lo(num_bits: u8, is_signed: bool) -> int
    recommends
        1 <= num_bits,
{
    if is_signed {
        -pow2((num_bits - 1) as nat)
    } else {
        0
    }
}

/// The scale factor used by the quantizer: the scale, bounded above by one.
pub open spec fn scale_factor_raw(scale_raw: int) -> int {
    if scale_raw < MICROS_PER_UNIT {
        scale_raw
    } else {
        MICROS_PER_UNIT as int
    }
}

impl Signal {
    /// Parameters the quantizer and the waveform evaluators can work on
    /// without leaving the supported numeric domain.
    pub open spec fn wf(self) -> bool {
        &&& self.minimum.raw <= self.maximum.raw
        &&& abs_int(self.minimum.raw as int) <= BOUND_RAW_LIMIT
        &&& abs_int(self.maximum.raw as int) <= BOUND_RAW_LIMIT
        &&& abs_int(self.amplitude.raw as int) <= PARAM_RAW_LIMIT
        &&& abs_int(self.period.raw as int) <= PARAM_RAW_LIMIT
        &&& abs_int(self.phase.raw as int) <= PARAM_RAW_LIMIT
        &&& abs_int(self.scale.raw as int) <= PARAM_RAW_LIMIT
        &&& abs_int(self.offset.raw as int) <= PARAM_RAW_LIMIT
        &&& 1 <= self.num_bits <= 63
        &&& self.scale.raw != 0
        &&& (self.signal_type != SignalType::Constant ==> self.period.raw != 0)
    }

    /// The quantizer, step for step: clamp into the bounds, divide by the
    /// scale factor, remove the offset, round, clamp into the representable
    /// integer range, then reverse the transform and clamp into the bounds
    /// once more.  The result counts whole units.
    pub open spec fn spec_shrink(self, v: int) -> int {
        let clamped = clamp_raw(v, self.minimum.raw as int, self.maximum.raw as int);
        let sf = scale_factor_raw(self.scale.raw as int);
        let scaled = if sf == MICROS_PER_UNIT {
            clamped
        } else {
            trunc_div(clamped * MICROS_PER_UNIT, sf)
        };
        let shifted = scaled - self.offset.raw;
        let encoded = round_units(shifted);
        let enc_clamped = clamp_raw(
            encoded,
            bits_lo(self.num_bits, self.is_signed),
            bits_hi(self.num_bits, self.is_signed),
        );
        let reconstructed = trunc_div(
            (enc_clamped * MICROS_PER_UNIT + self.offset.raw) * sf,
            MICROS_PER_UNIT as int,
        );
        let rounded = sat_i64(round_units(reconstructed));
        if rounded * MICROS_PER_UNIT > self.maximum.raw {
            sat_i64(floor_units(self.maximum.raw as int))
        } else if self.minimum.raw > rounded * MICROS_PER_UNIT {
            sat_i64(ceil_units(self.minimum.raw as int))
        } else {
            rounded
        }
    }
}

/// `v` forced into `[lo, hi]`.
pub fn clamp_i128(v: i128, lo: i128, hi: i128) -> (r: i128)
    requires
        lo <= hi,
    ensures
        r == clamp_raw(v as int, lo as int, hi as int),
{
    if v < lo {
        lo
    } else if v > hi {
        hi
    } else {
        v
    }
}

/// `a` saturated into the `i64` range.
pub fn sat_i64_exec(a: i128) -> (r: i64)
    ensures
        r == sat_i64(a as int),
{
    if a > i64::MAX as i128 {
        i64::MAX
    } else if a < i64::MIN as i128 {
        i64::MIN
    } else {
        a as i64
    }
}

/// Fixed-point product `a * b`, truncated to micro-units.
pub fn fx_mul_exec(a: i128, b: i128) -> (r: i128)
    requires
        abs_int(a as int) * abs_int(b as int) < i128::MAX,
    ensures
        r == fx_mul(a as int, b as int),
        abs_int(r as int) <= abs_int(a as int) * abs_int(b as int),
{
    proof {
        lemma_mul_abs_bound(a as int, b as int, abs_int(a as int), abs_int(b as int));
    }
    let prod = a * b;
    proof {
        lemma_trunc_div_bound(prod as int, MICROS_PER_UNIT as int);
    }
    div_trunc(prod, MICROS_PER_UNIT)
}

/// `2^e` for exponents up to 63.
pub fn two_pow(e: u8) -> (r: u64)
    requires
        e <= 63,
    ensures
        r == pow2(e as nat),
{
    proof {
        lemma2_to64();
        lemma2_to64_rest();
        if ((e as nat) < 63) {
            lemma_pow2_strictly_increases(e as nat, 63);
        }
        lemma_u64_shl_is_mul(1u64, e as u64);
    }
    1u64 << (e as u64)
}

/// Rounds a micro-unit count to the nearest whole unit, halves away
/// from zero.
pub fn round_units_exec(raw: i128) -> (r: i128)
    requires
        abs_int(raw as int) <= i128::MAX - HALF_UNIT,
    ensures
        r == round_units(raw as int),
        abs_int(r as int) <= abs_int(raw as int),
{
    proof {
        let m = MICROS_PER_UNIT as int;
        let n = abs_int(raw as int) + HALF_UNIT;
        assert(0 <= n / m <= abs_int(raw as int) && n / m < i128::MAX) by (nonlinear_arith)
            requires
                m == 1_000_000 && HALF_UNIT == 500_000 && n == abs_int(raw as int) + HALF_UNIT
                    && 0 <= abs_int(raw as int) <= i128::MAX - HALF_UNIT,
        ;
    }
    if raw >= 0 {
        match (raw + HALF_UNIT).checked_div_euclid(MICROS_PER_UNIT) {
            Some(q) => q,
            None => unreached(),
        }
    } else {
        let q = match (HALF_UNIT - raw).checked_div_euclid(MICROS_PER_UNIT) {
            Some(q) => q,
            None => unreached(),
        };
        -q
    }
}

impl Signal {
    /// Shrink a value to only take up a certain number of bits after the
    /// scale and offset have been applied.  The result counts whole units
    /// and stays within the signal's minimum and maximum whenever some
    /// whole unit lies between them.
    pub fn shrink_to_fit(&self, value: Fixed) -> (r: i64)
        requires
            self.wf(),
        ensures
            r == self.spec_shrink(value.raw as int),
    {
        let clamped = clamp_i128(value.raw, self.minimum.raw, self.maximum.raw);
        let sf = if self.scale.raw < MICROS_PER_UNIT {
            self.scale.raw
        } else {
            MICROS_PER_UNIT
        };
        let scaled = if sf == MICROS_PER_UNIT {
            clamped
        } else {
            proof {
                lemma_mul_abs_bound(
                    clamped as int,
                    MICROS_PER_UNIT as int,
                    BOUND_RAW_LIMIT as int,
                    MICROS_PER_UNIT as int,
                );
            }
            let wide = clamped * MICROS_PER_UNIT;
            proof {
                lemma_trunc_div_bound(wide as int, sf as int);
            }
            div_trunc(wide, sf)
        };
        let shifted = scaled - self.offset.raw;
        let encoded = round_units_exec(shifted);
        let hi_mag = two_pow(if self.is_signed {
            self.num_bits - 1
        } else {
            self.num_bits
        });
        proof {
            lemma2_to64();
            lemma2_to64_rest();
            if self.is_signed && ((self.num_bits - 1) as nat) < 63 {
                lemma_pow2_strictly_increases((self.num_bits - 1) as nat, 63);
            }
            if !self.is_signed && (self.num_bits as nat) < 63 {
                lemma_pow2_strictly_increases(self.num_bits as nat, 63);
            }
        }
        let hi: i128 = hi_mag as i128 - 1;
        let lo: i128 = if self.is_signed {
            -(hi_mag as i128)
        } else {
            0
        };
        let enc_clamped = clamp_i128(encoded, lo, hi);
        proof {
            lemma_mul_abs_bound(
                enc_clamped as int,
                MICROS_PER_UNIT as int,
                pow2(63) as int,
                MICROS_PER_UNIT as int,
            );
            lemma_mul_abs_bound(
                enc_clamped as int * MICROS_PER_UNIT + self.offset.raw,
                sf as int,
                pow2(63) * MICROS_PER_UNIT + PARAM_RAW_LIMIT,
                PARAM_RAW_LIMIT as int,
            );
        }
        let shifted_back = enc_clamped * MICROS_PER_UNIT + self.offset.raw;
        let wide_back = shifted_back * sf;
        proof {
            lemma_trunc_div_bound(wide_back as int, MICROS_PER_UNIT as int);
        }
        let reconstructed = div_trunc(wide_back, MICROS_PER_UNIT);
        let rounded = sat_i64_exec(round_units_exec(reconstructed));
        if rounded as i128 * MICROS_PER_UNIT > self.maximum.raw {
            sat_i64_exec(floor_units_exec(self.maximum.raw))
        } else if self.minimum.raw > rounded as i128 * MICROS_PER_UNIT {
            sat_i64_exec(ceil_units_exec(self.minimum.raw))
        } else {
            rounded
        }
    }
}

/// The quantizer keeps every sample between the signal's minimum and
/// maximum, whenever some whole unit lies between them and that unit is
/// representable as a 64-bit integer.
pub proof fn lemma_shrink_in_bounds(s: Signal, v: int)
    requires
        s.wf(),
        ceil_units(s.minimum.raw as int) <= floor_units(s.maximum.raw as int),
        ceil_units(s.minimum.raw as int) <= i64::MAX,
        i64::MIN <= floor_units(s.maximum.raw as int),
    ensures
        s.minimum.raw <= s.spec_shrink(v) * MICROS_PER_UNIT,
        s.spec_shrink(v) * MICROS_PER_UNIT <= s.maximum.raw,
{
    lemma_floor_ceil_units(s.minimum.raw as int);
    lemma_floor_ceil_units(s.maximum.raw as int);
}

/// Bhaskara's rational approximation of the sine on `[0, pi]`, in
/// micro-units; it stays within `[0, 1]`.
pub open spec fn bhaskara(x: int) -> int
    recommends
        0 <= x <= PI_RAW,
{
    let p = x * (PI_RAW - x);
    trunc_div(16 * p * MICROS_PER_UNIT, 5 * PI_RAW * PI_RAW - 4 * p)
}

/// Fixed-point sine of an angle in micro-radians, in micro-units.
pub open spec fn fx_sin_spec(x: int) -> int {
    let red = x % (TWO_PI_RAW as int);
    if red < PI_RAW {
        bhaskara(red)
    } else {
        -bhaskara(red - PI_RAW)
    }
}

/// Bhaskara's sine approximation on `[0, pi]`.
pub fn bhaskara_exec(x: i128) -> (r: i128)
    requires
        0 <= x <= PI_RAW,
    ensures
        r == bhaskara(x as int),
        0 <= r <= MICROS_PER_UNIT,
{
    proof {
        assert(0 <= x * (PI_RAW - x) && x * (PI_RAW - x) <= PI_RAW * PI_RAW && 4 * (x * (PI_RAW
            - x)) <= PI_RAW * PI_RAW) by (nonlinear_arith)
            requires
                0 <= x <= PI_RAW && PI_RAW == 3_141_593,
        ;
    }
    let p = x * (PI_RAW - x);
    let num = 16 * p * MICROS_PER_UNIT;
    let den = 5 * PI_RAW * PI_RAW - 4 * p;
    let q = div_trunc(num, den);
    proof {
        assert(num <= den * MICROS_PER_UNIT) by (nonlinear_arith)
            requires
                0 <= p && 4 * p <= PI_RAW * PI_RAW && num == 16 * p * MICROS_PER_UNIT && den == 5
                    * PI_RAW * PI_RAW - 4 * p && MICROS_PER_UNIT == 1_000_000 && PI_RAW
                    == 3_141_593,
        ;
        assert(num / den <= MICROS_PER_UNIT && num / den >= 0) by (nonlinear_arith)
            requires
                num >= 0 && den >= 1 && num <= den * (MICROS_PER_UNIT as int),
        ;
    }
    q
}

/// Fixed-point sine of an angle in micro-radians; the result never
/// leaves `[-1, 1]`.
pub fn fx_sin(x: i128) -> (r: i128)
    requires
        x != i128::MIN,
    ensures
        r == fx_sin_spec(x as int),
        abs_int(r as int) <= MICROS_PER_UNIT,
{
    let red = rem_euclid_exec(x, TWO_PI_RAW);
    if red < PI_RAW {
        bhaskara_exec(red)
    } else {
        -bhaskara_exec(red - PI_RAW)
    }
}

impl Signal {
    /// The raw waveform value of this signal at `time` with one noise
    /// draw mixed in, before clamping and quantization.
    pub open spec fn spec_raw_value(self, time: int, noise: int) -> int {
        let amp = self.amplitude.raw as int;
        let tp = time + self.phase.raw;
        match self.signal_type {
            SignalType::Sine => {
                let b = trunc_div(TWO_PI_RAW * MICROS_PER_UNIT, self.period.raw as int);
                let angle = fx_mul(b, tp);
                fx_mul(amp, fx_sin_spec(angle) + noise)
            },
            SignalType::Square => {
                let rem = trunc_rem(tp, self.period.raw as int);
                let base = if rem < trunc_div(self.period.raw as int, 2) {
                    amp
                } else {
                    -amp
                };
                base + fx_mul(noise, amp)
            },
            SignalType::Triangle => {
                let rem = trunc_rem(tp, self.period.raw as int);
                let tt = trunc_div(rem * MICROS_PER_UNIT, self.period.raw as int);
                let shape = if tt < 250_000 {
                    4 * fx_mul(amp, tt)
                } else if tt < 750_000 {
                    fx_mul(amp, MICROS_PER_UNIT - 4 * (tt - 250_000))
                } else {
                    4 * fx_mul(amp, tt - 750_000) - amp
                };
                shape + fx_mul(noise, amp)
            },
            SignalType::Sawtooth => {
                let rem = trunc_rem(tp, self.period.raw as int);
                let tt = trunc_div(rem * MICROS_PER_UNIT, self.period.raw as int);
                fx_mul(amp, 2 * tt - MICROS_PER_UNIT) + fx_mul(noise, amp)
            },
            SignalType::Constant => amp + fx_mul(noise, amp),
        }
    }

    /// The sample at `time` for one noise draw: the raw waveform value,
    /// clamped into the bounds, then quantized.
    pub open spec fn spec_calculate(self, time: int, noise: int) -> int {
        self.spec_shrink(
            clamp_raw(
                self.spec_raw_value(time, noise),
                self.minimum.raw as int,
                self.maximum.raw as int,
            ),
        )
    }

    /// The sample at `time` using the given noise draw.
    pub fn calculate_with(&self, time: Fixed, noise: Fixed) -> (r: i64)
        requires
            self.wf(),
            abs_int(time.raw as int) <= TIME_RAW_LIMIT,
            abs_int(noise.raw as int) <= NOISE_RAW_LIMIT,
        ensures
            r == self.spec_calculate(time.raw as int, noise.raw as int),
    {
        let amp = self.amplitude.raw;
        let tp = time.raw + self.phase.raw;
        proof {
            lemma_mul_abs_bound(
                noise.raw as int,
                amp as int,
                NOISE_RAW_LIMIT as int,
                PARAM_RAW_LIMIT as int,
            );
        }
        let value: i128 = match self.signal_type {
            SignalType::Sine => {
                let b = div_trunc(TWO_PI_RAW * MICROS_PER_UNIT, self.period.raw);
                proof {
                    lemma_mul_abs_bound(
                        b as int,
                        tp as int,
                        TWO_PI_RAW * MICROS_PER_UNIT,
                        TIME_RAW_LIMIT + PARAM_RAW_LIMIT,
                    );
                }
                let angle = fx_mul_exec(b, tp);
                let sinv = fx_sin(angle);
                proof {
                    lemma_mul_abs_bound(
                        amp as int,
                        sinv + noise.raw as int,
                        PARAM_RAW_LIMIT as int,
                        MICROS_PER_UNIT + NOISE_RAW_LIMIT,
                    );
                }
                fx_mul_exec(amp, sinv + noise.raw)
            },
            SignalType::Square => {
                let rem = rem_trunc(tp, self.period.raw);
                let half = div_trunc(self.period.raw, 2);
                let base = if rem < half {
                    amp
                } else {
                    -amp
                };
                base + fx_mul_exec(noise.raw, amp)
            },
            SignalType::Triangle => {
                let tt = self.norm_frac(tp);
                let shape: i128 = if tt < 250_000 {
                    proof {
                        lemma_mul_abs_bound(
                            amp as int,
                            tt as int,
                            PARAM_RAW_LIMIT as int,
                            MICROS_PER_UNIT as int,
                        );
                    }
                    4 * fx_mul_exec(amp, tt)
                } else if tt < 750_000 {
                    let inner = MICROS_PER_UNIT - 4 * (tt - 250_000);
                    proof {
                        lemma_mul_abs_bound(
                            amp as int,
                            inner as int,
                            PARAM_RAW_LIMIT as int,
                            2 * MICROS_PER_UNIT as int,
                        );
                    }
                    fx_mul_exec(amp, inner)
                } else {
                    proof {
                        lemma_mul_abs_bound(
                            amp as int,
                            tt - 750_000 as int,
                            PARAM_RAW_LIMIT as int,
                            MICROS_PER_UNIT as int,
                        );
                    }
                    4 * fx_mul_exec(amp, tt - 750_000) - amp
                };
                shape + fx_mul_exec(noise.raw, amp)
            },
            SignalType::Sawtooth => {
                let tt = self.norm_frac(tp);
                proof {
                    lemma_mul_abs_bound(
                        amp as int,
                        2 * tt - MICROS_PER_UNIT as int,
                        PARAM_RAW_LIMIT as int,
                        3 * MICROS_PER_UNIT as int,
                    );
                }
                fx_mul_exec(amp, 2 * tt - MICROS_PER_UNIT) + fx_mul_exec(noise.raw, amp)
            },
            SignalType::Constant => amp + fx_mul_exec(noise.raw, amp),
        };
        let clamped = clamp_i128(value, self.minimum.raw, self.maximum.raw);
        self.shrink_to_fit(Fixed { raw: clamped })
    }

    /// The period-relative position `((time + phase) mod period) / period`
    /// as a micro-unit fraction; its magnitude stays below one.
    fn norm_frac(&self, tp: i128) -> (tt: i128)
        requires
            self.wf(),
            self.period.raw != 0,
            tp != i128::MIN,
        ensures
            tt == trunc_div(
                trunc_rem(tp as int, self.period.raw as int) * MICROS_PER_UNIT,
                self.period.raw as int,
            ),
            abs_int(tt as int) < MICROS_PER_UNIT,
    {
        let rem = rem_trunc(tp, self.period.raw);
        proof {
            lemma_mul_abs_bound(
                rem as int,
                MICROS_PER_UNIT as int,
                PARAM_RAW_LIMIT as int,
                MICROS_PER_UNIT as int,
            );
            assert(abs_int(rem as int * MICROS_PER_UNIT) < abs_int(self.period.raw as int)
                * MICROS_PER_UNIT) by (nonlinear_arith)
                requires
                    abs_int(rem as int) < abs_int(self.period.raw as int) && abs_int(
                        rem as int * MICROS_PER_UNIT,
                    ) == abs_int(rem as int) * (MICROS_PER_UNIT as int),
            ;
            lemma_trunc_div_strict(
                rem as int * MICROS_PER_UNIT,
                self.period.raw as int,
                MICROS_PER_UNIT as int,
            );
        }
        div_trunc(rem * MICROS_PER_UNIT, self.period.raw)
    }

    /// A fresh noise draw: a uniform fraction of one percent magnitude.
    pub fn noise(&self) -> (r: Fixed)
        ensures
            -NOISE_RAW_LIMIT <= r.raw < NOISE_RAW_LIMIT,
    {
        Fixed::from_micros(rand_range(-NOISE_RAW_LIMIT, NOISE_RAW_LIMIT))
    }

    /// The sample at `time`, with a fresh noise draw mixed in.  Whatever
    /// the draw, the sample stays between the signal's minimum and maximum
    /// whenever some whole unit lies between them and is representable.
    pub fn calculate(&self, time: Fixed) -> (r: i64)
        requires
            self.wf(),
            abs_int(time.raw as int) <= TIME_RAW_LIMIT,
        ensures
            exists|n: int|
                #![auto]
                {
                    &&& -NOISE_RAW_LIMIT <= n < NOISE_RAW_LIMIT
                    &&& r == self.spec_calculate(time.raw as int, n)
                },
            (ceil_units(self.minimum.raw as int) <= floor_units(self.maximum.raw as int)
                && ceil_units(self.minimum.raw as int) <= i64::MAX && i64::MIN <= floor_units(
                self.maximum.raw as int,
            )) ==> self.minimum.raw <= r * MICROS_PER_UNIT <= self.maximum.raw,
    {
        let n = self.noise();
        let r = self.calculate_with(time, n);
        proof {
            assert(-NOISE_RAW_LIMIT <= n.raw < NOISE_RAW_LIMIT && r == self.spec_calculate(
                time.raw as int,
                n.raw as int,
            ));
            if ceil_units(self.minimum.raw as int) <= floor_units(self.maximum.raw as int)
                && ceil_units(self.minimum.raw as int) <= i64::MAX && i64::MIN <= floor_units(
                self.maximum.raw as int,
            ) {
                lemma_shrink_in_bounds(
                    *self,
                    clamp_raw(
                        self.spec_raw_value(time.raw as int, n.raw as int),
                        self.minimum.raw as int,
                        self.maximum.raw as int,
                    ),
                );
            }
        }
        r
    }

    /// Every sample lies between the signal's minimum and maximum: for any
    /// time and any admissible noise draw, the calculated sample, read as a
    /// whole-unit quantity, is within the bounds.  This needs some whole
    /// unit to lie between the bounds, representable as a 64-bit integer.
    pub proof fn lemma_calculate_in_bounds(self, time: int, noise: int)
        requires
            self.wf(),
            ceil_units(self.minimum.raw as int) <= floor_units(self.maximum.raw as int),
            ceil_units(self.minimum.raw as int) <= i64::MAX,
            i64::MIN <= floor_units(self.maximum.raw as int),
        ensures
            self.minimum.raw <= self.spec_calculate(time, noise) * MICROS_PER_UNIT,
            self.spec_calculate(time, noise) * MICROS_PER_UNIT <= self.maximum.raw,
    {
        lemma_shrink_in_bounds(
            self,
            clamp_raw(
                self.spec_raw_value(time, noise),
                self.minimum.raw as int,
                self.maximum.raw as int,
            ),
        );
    }

    /// The waveform family of this signal.
    pub fn get_type(&self) -> (r: SignalType)
        ensures
            r == self.signal_type,
    {
        self.signal_type
    }

    /// The canonical name of this signal's waveform family.
    pub fn get_type_name(&self) -> (r: &'static str)
        ensures
            r@ == name_of(self.signal_type),
    {
        self.get_type().to_string()
    }

    /// The lower output bound.
    pub fn get_minimum(&self) -> (r: Fixed)
        ensures
            r == self.minimum,
    {
        self.minimum
    }

    /// The upper output bound.
    pub fn get_maximum(&self) -> (r: Fixed)
        ensures
            r == self.maximum,
    {
        self.maximum
    }

    /// The waveform's scale factor.
    pub fn get_amplitude(&self) -> (r: Fixed)
        ensures
            r == self.amplitude,
    {
        self.amplitude
    }

    /// The waveform's repeat interval.
    pub fn get_period(&self) -> (r: Fixed)
        ensures
            r == self.period,
    {
        self.period
    }

    /// The time offset added before period-relative computation.
    pub fn get_phase(&self) -> (r: Fixed)
        ensures
            r == self.phase,
    {
        self.phase
    }

    /// The width of the underlying integer encoding.
    pub fn get_num_bits(&self) -> (r: u8)
        ensures
            r == self.num_bits,
    {
        self.num_bits
    }

    /// Whether the integer encoding is signed.
    pub fn is_signed(&self) -> (r: bool)
        ensures
            r == self.is_signed,
    {
        self.is_signed
    }

    /// The linear transform's scale.
    pub fn get_scale(&self) -> (r: Fixed)
        ensures
            r == self.scale,
    {
        self.scale
    }

    /// The linear transform's offset.
    pub fn get_offset(&self) -> (r: Fixed)
        ensures
            r == self.offset,
    {
        self.offset
    }
}

} // verus!
