//! The generator: validated construction, bound derivation, sampling and
//! random generation.

use vstd::prelude::*;
use vstd::arithmetic::power2::{pow2, lemma2_to64, lemma2_to64_rest, lemma_pow2_strictly_increases};

use crate::errors::SignalError;
use crate::fixed::{Fixed, MICROS_PER_UNIT, abs_int, ceil_units, floor_units, lemma_mul_abs_bound};
use crate::rng::rand_range;
use crate::signal::{
    Signal, PARAM_RAW_LIMIT, BOUND_RAW_LIMIT, TIME_RAW_LIMIT, NOISE_RAW_LIMIT, two_pow,
};
use crate::signal_type::SignalType;

verus! {

/// The sentinel lower bound: the smallest 32-bit signed integer, in
/// micro-units.  Passing it as the minimum asks for a derived bound.
pub const MIN_LIMIT_RAW: i128 = -2_147_483_648_000_000;

/// The sentinel upper bound: the largest 32-bit signed integer, in
/// micro-units.  Passing it as the maximum asks for a derived bound.
pub const MAX_LIMIT_RAW: i128 = 2_147_483_647_000_000;

/// The sentinel upper bound as a quantity.
pub fn get_max_limit() -> (r: Fixed)
    ensures
        r.raw == MAX_LIMIT_RAW,
{
    Fixed { raw: MAX_LIMIT_RAW }
}

/// The sentinel lower bound as a quantity.
pub fn get_min_limit() -> (r: Fixed)
    ensures
        r.raw == MIN_LIMIT_RAW,
{
    Fixed { raw: MIN_LIMIT_RAW }
}

/// The natural bounds of a signal's encoding, in micro-units: the real
/// values reached by the lowest and highest representable integer codes
/// under the scale and offset, ordered low to high.
pub open spec fn spec_derive_bounds(
    is_signed: bool,
    num_bits: u8,
    scale: int,
    offset: int,
) -> (int, int)
    recommends
        1 <= num_bits <= 63,
{
    let l = if is_signed {
        -(scale * pow2((num_bits - 1) as nat)) + offset
    } else {
        offset
    };
    let h = if is_signed {
        scale * (pow2((num_bits - 1) as nat) - 1) + offset
    } else {
        scale * (pow2(num_bits as nat) - 1) + offset
    };
    if l > h {
        (h, l)
    } else {
        (l, h)
    }
}

/// Derives the natural `[minimum, maximum]` bounds from the encoding
/// parameters: the scale spans the representable integer range and the
/// offset shifts it; a negative scale flips the two ends.
pub fn calculate_minimum_and_maximum(
    is_signed: bool,
    num_bits: u8,
    scale: Fixed,
    offset: Fixed,
) -> (r: (Fixed, Fixed))
    requires
        1 <= num_bits <= 63,
        abs_int(scale.raw as int) <= PARAM_RAW_LIMIT,
        abs_int(offset.raw as int) <= PARAM_RAW_LIMIT,
    ensures
        (r.0.raw as int, r.1.raw as int) == spec_derive_bounds(
            is_signed,
            num_bits,
            scale.raw as int,
            offset.raw as int,
        ),
        r.0.raw <= r.1.raw,
        abs_int(r.0.raw as int) <= BOUND_RAW_LIMIT,
        abs_int(r.1.raw as int) <= BOUND_RAW_LIMIT,
{
    proof {
        lemma2_to64();
        lemma2_to64_rest();
        if is_signed && ((num_bits - 1) as nat) < 63 {
            lemma_pow2_strictly_increases((num_bits - 1) as nat, 63);
        }
        if !is_signed && ((num_bits as nat) < 63) {
            lemma_pow2_strictly_increases(num_bits as nat, 63);
        }
    }
    let (l, h): (i128, i128) = if is_signed {
        let m = two_pow(num_bits - 1) as i128;
        proof {
            lemma_mul_abs_bound(scale.raw as int, m as int, PARAM_RAW_LIMIT as int, pow2(63) as int);
            lemma_mul_abs_bound(
                scale.raw as int,
                m - 1,
                PARAM_RAW_LIMIT as int,
                pow2(63) as int,
            );
        }
        let l = -(scale.raw * m) + offset.raw;
        let h = scale.raw * (m - 1) + offset.raw;
        (l, h)
    } else {
        let m = two_pow(num_bits) as i128;
        proof {
            lemma_mul_abs_bound(
                scale.raw as int,
                m - 1,
                PARAM_RAW_LIMIT as int,
                pow2(63) as int,
            );
        }
        let l = offset.raw;
        let h = scale.raw * (m - 1) + offset.raw;
        (l, h)
    };
    if l > h {
        (Fixed { raw: h }, Fixed { raw: l })
    } else {
        (Fixed { raw: l }, Fixed { raw: h })
    }
}

/// A validated signal generator: it owns exactly one signal and is
/// immutable after construction.  Equality compares the waveform family
/// and all nine scalar parameters.
#[derive(Clone, Copy, Debug, PartialEq, Eq, Structural)]
pub struct SignalGenerator {
    pub inner: Signal,
}

impl SignalGenerator {
    /// A generator is well formed when its signal is, and when a stored
    /// bound that happens to equal its sentinel is exactly what bound
    /// derivation yields, so that decoding re-derives the same value.
    pub open spec fn wf(self) -> bool {
        &&& self.inner.wf()
        &&& self.inner.minimum.raw == MIN_LIMIT_RAW ==> spec_derive_bounds(
            self.inner.is_signed,
            self.inner.num_bits,
            self.inner.scale.raw as int,
            self.inner.offset.raw as int,
        ).0 == MIN_LIMIT_RAW as int
        &&& self.inner.maximum.raw == MAX_LIMIT_RAW ==> spec_derive_bounds(
            self.inner.is_signed,
            self.inner.num_bits,
            self.inner.scale.raw as int,
            self.inner.offset.raw as int,
        ).1 == MAX_LIMIT_RAW as int
    }

    /// What construction returns: the invalid-range failure when the given
    /// bounds are out of order, otherwise the generator whose bounds have
    /// each sentinel replaced by its derived counterpart.  A derived bound
    /// that lands above its partner is rejected the same way.
    pub open spec fn spec_new(
        signal_type: SignalType,
        minimum: Fixed,
        maximum: Fixed,
        amplitude: Fixed,
        period: Fixed,
        phase: Fixed,
        num_bits: u8,
        is_signed: bool,
        scale: Fixed,
        offset: Fixed,
    ) -> Result<SignalGenerator, SignalError> {
        if minimum.raw > maximum.raw {
            Err(SignalError::InvalidRange)
        } else {
            let derived = spec_derive_bounds(is_signed, num_bits, scale.raw as int, offset.raw as int);
            let rmin = if minimum.raw == MIN_LIMIT_RAW {
                derived.0
            } else {
                minimum.raw as int
            };
            let rmax = if maximum.raw == MAX_LIMIT_RAW {
                derived.1
            } else {
                maximum.raw as int
            };
            if rmin > rmax {
                Err(SignalError::InvalidRange)
            } else {
                Ok(
                    SignalGenerator {
                        inner: Signal {
                            signal_type,
                            minimum: Fixed { raw: rmin as i128 },
                            maximum: Fixed { raw: rmax as i128 },
                            amplitude,
                            period,
                            phase,
                            num_bits,
                            is_signed,
                            scale,
                            offset,
                        },
                    },
                )
            }
        }
    }

    /// Builds a generator, failing with the invalid-range condition when
    /// the bounds are out of order; a bound equal to its sentinel is
    /// replaced by the corresponding derived bound.
    pub fn new(
        signal_type: SignalType,
        minimum: Fixed,
        maximum: Fixed,
        amplitude: Fixed,
        period: Fixed,
        phase: Fixed,
        num_bits: u8,
        is_signed: bool,
        scale: Fixed,
        offset: Fixed,
    ) -> (r: Result<SignalGenerator, SignalError>)
        requires
            1 <= num_bits <= 63,
            abs_int(minimum.raw as int) <= BOUND_RAW_LIMIT,
            abs_int(maximum.raw as int) <= BOUND_RAW_LIMIT,
            abs_int(amplitude.raw as int) <= PARAM_RAW_LIMIT,
            abs_int(period.raw as int) <= PARAM_RAW_LIMIT,
            abs_int(phase.raw as int) <= PARAM_RAW_LIMIT,
            abs_int(scale.raw as int) <= PARAM_RAW_LIMIT,
            abs_int(offset.raw as int) <= PARAM_RAW_LIMIT,
            scale.raw != 0,
            signal_type != SignalType::Constant ==> period.raw != 0,
        ensures
            r == Self::spec_new(
                signal_type,
                minimum,
                maximum,
                amplitude,
                period,
                phase,
                num_bits,
                is_signed,
                scale,
                offset,
            ),
            r matches Ok(g) ==> g.wf(),
    {
        if minimum.raw > maximum.raw {
            return Err(SignalError::InvalidRange);
        }
        let derived = calculate_minimum_and_maximum(is_signed, num_bits, scale, offset);
        let rmin = if minimum.raw == MIN_LIMIT_RAW {
            derived.0
        } else {
            minimum
        };
        let rmax = if maximum.raw == MAX_LIMIT_RAW {
            derived.1
        } else {
            maximum
        };
        if rmin.raw > rmax.raw {
            return Err(SignalError::InvalidRange);
        }
        Ok(
            SignalGenerator {
                inner: Signal {
                    signal_type,
                    minimum: rmin,
                    maximum: rmax,
                    amplitude,
                    period,
                    phase,
                    num_bits,
                    is_signed,
                    scale,
                    offset,
                },
            },
        )
    }

    /// The sample at `time`, with a fresh noise draw.  Whatever the draw,
    /// the sample stays between the generator's minimum and maximum
    /// whenever some whole unit lies between them and is representable.
    pub fn calculate(&self, time: Fixed) -> (r: i64)
        requires
            self.wf(),
            abs_int(time.raw as int) <= TIME_RAW_LIMIT,
        ensures
            exists|n: int|
                #![auto]
                {
                    &&& -NOISE_RAW_LIMIT <= n < NOISE_RAW_LIMIT
                    &&& r == self.inner.spec_calculate(time.raw as int, n)
                },
            (ceil_units(self.inner.minimum.raw as int) <= floor_units(self.inner.maximum.raw as int)
                && ceil_units(self.inner.minimum.raw as int) <= i64::MAX && i64::MIN
                <= floor_units(self.inner.maximum.raw as int)) ==> self.inner.minimum.raw <= r
                * MICROS_PER_UNIT <= self.inner.maximum.raw,
    {
        self.inner.calculate(time)
    }

    /// A constant signal at level zero: amplitude, period and phase are
    /// all zero, every other parameter is taken as given.
    pub fn default_constant_signal(
        num_bits: u8,
        is_signed: bool,
        scale: Fixed,
        offset: Fixed,
        minimum: Fixed,
        maximum: Fixed,
    ) -> (r: Result<SignalGenerator, SignalError>)
        requires
            1 <= num_bits <= 63,
            abs_int(minimum.raw as int) <= BOUND_RAW_LIMIT,
            abs_int(maximum.raw as int) <= BOUND_RAW_LIMIT,
            abs_int(scale.raw as int) <= PARAM_RAW_LIMIT,
            abs_int(offset.raw as int) <= PARAM_RAW_LIMIT,
            scale.raw != 0,
        ensures
            r == Self::spec_new(
                SignalType::Constant,
                minimum,
                maximum,
                Fixed { raw: 0 },
                Fixed { raw: 0 },
                Fixed { raw: 0 },
                num_bits,
                is_signed,
                scale,
                offset,
            ),
            r matches Ok(g) ==> g.wf(),
    {
        SignalGenerator::new(
            SignalType::Constant,
            minimum,
            maximum,
            Fixed { raw: 0 },
            Fixed { raw: 0 },
            Fixed { raw: 0 },
            num_bits,
            is_signed,
            scale,
            offset,
        )
    }

    /// What one admissible draw of the random generator produces: a
    /// waveform family `t`, an amplitude below one hundred, a period below
    /// ten but never zero, a phase below the period, and the construction
    /// result they lead to.
    pub open spec fn random_outcome(
        r: Result<SignalGenerator, SignalError>,
        t: SignalType,
        a: int,
        p: int,
        ph: int,
        num_bits: u8,
        is_signed: bool,
        scale: Fixed,
        offset: Fixed,
        minimum: Fixed,
        maximum: Fixed,
    ) -> bool {
        &&& 0 <= a < 100 * MICROS_PER_UNIT
        &&& 1 <= p < 10 * MICROS_PER_UNIT
        &&& 0 <= ph < p
        &&& r == Self::spec_new(
            t,
            minimum,
            maximum,
            Fixed { raw: a as i128 },
            Fixed { raw: p as i128 },
            Fixed { raw: ph as i128 },
            num_bits,
            is_signed,
            scale,
            offset,
        )
    }

    /// Generate a random signal with the given parameters: a uniformly
    /// chosen waveform family, an amplitude below one hundred, a period
    /// below ten (never zero, so periodic families stay computable) and a
    /// phase below the period.
    pub fn random_signal(
        num_bits: u8,
        is_signed: bool,
        scale: Fixed,
        offset: Fixed,
        minimum: Fixed,
        maximum: Fixed,
    ) -> (r: Result<SignalGenerator, SignalError>)
        requires
            1 <= num_bits <= 63,
            abs_int(minimum.raw as int) <= BOUND_RAW_LIMIT,
            abs_int(maximum.raw as int) <= BOUND_RAW_LIMIT,
            abs_int(scale.raw as int) <= PARAM_RAW_LIMIT,
            abs_int(offset.raw as int) <= PARAM_RAW_LIMIT,
            scale.raw != 0,
        ensures
            exists|t: SignalType, a: int, p: int, ph: int|
                #![auto]
                Self::random_outcome(
                    r,
                    t,
                    a,
                    p,
                    ph,
                    num_bits,
                    is_signed,
                    scale,
                    offset,
                    minimum,
                    maximum,
                ),
            r matches Ok(g) ==> g.wf(),
    {
        let types = SignalType::get_types();
        let idx = rand_range(0, 5);
        let signal_type = types[idx as usize];
        let amplitude = rand_range(0, 100 * MICROS_PER_UNIT);
        let period = rand_range(1, 10 * MICROS_PER_UNIT);
        let phase = rand_range(0, period);
        let r = SignalGenerator::new(
            signal_type,
            minimum,
            maximum,
            Fixed { raw: amplitude },
            Fixed { raw: period },
            Fixed { raw: phase },
            num_bits,
            is_signed,
            scale,
            offset,
        );
        proof {
            assert(Self::random_outcome(
                r,
                signal_type,
                amplitude as int,
                period as int,
                phase as int,
                num_bits,
                is_signed,
                scale,
                offset,
                minimum,
                maximum,
            ));
        }
        r
    }
}

} // verus!
