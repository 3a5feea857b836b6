use can_message_data_generator::fixed::Fixed;
use can_message_data_generator::signal::Signal;
use can_message_data_generator::signal_generator::{
    calculate_minimum_and_maximum, get_max_limit, get_min_limit, SignalGenerator,
};
use can_message_data_generator::errors::SignalError;
use can_message_data_generator::signal_type::SignalType;
use rand::Rng;

#[test]
fn sine_test() {
    let signal = Signal {
        signal_type: SignalType::Constant,
        minimum: get_min_limit(),
        maximum: get_max_limit(),
        amplitude: Fixed::from_units(8200),
        period: Fixed::from_units(100),
        phase: Fixed::from_units(0),
        num_bits: 16,
        is_signed: true,
        scale: Fixed::from_units(100),
        offset: Fixed::from_units(0),
    };
    let value = signal.calculate(Fixed::from_units(0));
    println!("{value}");
}

#[test]
fn test_default_generation() {
    let num_bits = 32;
    let is_signed = true;
    let scale = Fixed::from_units(1);
    let offset = Fixed::from_units(0);

    let minimum = get_min_limit();
    let maximum = get_max_limit();

    let default_signal =
        SignalGenerator::default_constant_signal(num_bits, is_signed, scale, offset, minimum, maximum)
            .unwrap();

    assert_eq!(default_signal.inner.get_type(), SignalType::Constant);
    assert_eq!(default_signal.inner.get_num_bits(), num_bits);
    assert_eq!(default_signal.inner.is_signed(), is_signed);
    assert_eq!(default_signal.inner.get_scale(), scale);
    assert_eq!(default_signal.inner.get_offset(), offset);
}

#[test]
fn test_random_generation() {
    let num_bits = 32;
    let is_signed = true;
    let scale = Fixed::from_units(1);
    let offset = Fixed::from_units(0);

    let minimum = get_min_limit();
    let maximum = get_max_limit();

    let _random_signal =
        SignalGenerator::random_signal(num_bits, is_signed, scale, offset, minimum, maximum)
            .unwrap();

    assert!(true);
}

#[test]
fn test_more_random_generation() {
    let num_bits = 16;
    let is_signed = false;
    // 0.0001 in micro-units.
    let scale = Fixed::from_micros(100);
    let offset = Fixed::from_units(0);

    let minimum = get_min_limit();
    let maximum = get_max_limit();

    let random_signal =
        SignalGenerator::random_signal(num_bits, is_signed, scale, offset, minimum, maximum)
            .unwrap();

    let mut rng = rand::thread_rng();
    for _i in 0..100 {
        let time = Fixed::from_units(rng.gen_range(0..1000));
        let value = random_signal.calculate(time);
        assert!(value as f64 / 0.0001 >= 0.0);
        assert!(value as f64 / 0.0001 <= 65535.0);
    }
}

/// The derived bounds of a signed 16-bit encoding with unit scale and no
/// offset span the signed 16-bit integer range.
#[test]
fn derive_bounds_signed_sixteen() {
    let (lo, hi) = calculate_minimum_and_maximum(
        true,
        16,
        Fixed::from_units(1),
        Fixed::from_units(0),
    );
    assert_eq!(lo, Fixed::from_units(-32768));
    assert_eq!(hi, Fixed::from_units(32767));
}

/// The derived bounds of an unsigned 16-bit encoding with unit scale and
/// no offset span the unsigned 16-bit integer range.
#[test]
fn derive_bounds_unsigned_sixteen() {
    let (lo, hi) = calculate_minimum_and_maximum(
        false,
        16,
        Fixed::from_units(1),
        Fixed::from_units(0),
    );
    assert_eq!(lo, Fixed::from_units(0));
    assert_eq!(hi, Fixed::from_units(65535));
}

/// A negative scale flips the derived bounds so they stay ordered.
#[test]
fn derive_bounds_negative_scale() {
    let (lo, hi) = calculate_minimum_and_maximum(
        false,
        8,
        Fixed::from_units(-2),
        Fixed::from_units(10),
    );
    assert_eq!(lo, Fixed::from_units(-2 * 255 + 10));
    assert_eq!(hi, Fixed::from_units(10));
    assert!(lo.raw <= hi.raw);
}

/// A constant signal with auto-derived bounds stays within one percent of
/// its amplitude, whatever the time and the noise draw.
#[test]
fn constant_signal_near_amplitude() {
    let generator = SignalGenerator::new(
        SignalType::Constant,
        get_min_limit(),
        get_max_limit(),
        Fixed::from_units(8200),
        Fixed::from_units(0),
        Fixed::from_units(0),
        16,
        true,
        Fixed::from_units(100),
        Fixed::from_units(0),
    )
    .unwrap();
    for t in [-50i64, 0, 7, 100, 100000] {
        let value = generator.calculate(Fixed::from_units(t));
        assert!((value - 8200).abs() <= 82);
    }
}

/// A square signal sits near its positive amplitude in the first half
/// period and near its negative amplitude in the second.
#[test]
fn square_signal_half_periods() {
    let generator = SignalGenerator::new(
        SignalType::Square,
        get_min_limit(),
        get_max_limit(),
        Fixed::from_units(100),
        Fixed::from_units(10),
        Fixed::from_units(0),
        16,
        true,
        Fixed::from_units(1),
        Fixed::from_units(0),
    )
    .unwrap();
    let high = generator.calculate(Fixed::from_units(0));
    assert!((high - 100).abs() <= 2);
    // Half a period plus a little.
    let low = generator.calculate(Fixed::from_micros(5_500_000));
    assert!((low + 100).abs() <= 2);
}

/// Every sample lies between the bounds, for every waveform family.
#[test]
fn samples_stay_in_bounds() {
    let mut rng = rand::thread_rng();
    for ty in SignalType::get_types() {
        let generator = SignalGenerator::new(
            ty,
            Fixed::from_units(-50),
            Fixed::from_units(75),
            Fixed::from_units(90),
            Fixed::from_units(7),
            Fixed::from_units(3),
            12,
            true,
            Fixed::from_micros(500_000),
            Fixed::from_units(2),
        )
        .unwrap();
        for _ in 0..50 {
            let time = Fixed::from_micros(rng.gen_range(-1_000_000_000..1_000_000_000));
            let value = generator.calculate(time);
            assert!(-50 <= value && value <= 75);
        }
    }
}

/// Out-of-order bounds are rejected with the invalid-range condition.
#[test]
fn invalid_range_rejected() {
    let r = SignalGenerator::new(
        SignalType::Sine,
        Fixed::from_units(10),
        Fixed::from_units(5),
        Fixed::from_units(1),
        Fixed::from_units(1),
        Fixed::from_units(0),
        16,
        true,
        Fixed::from_units(1),
        Fixed::from_units(0),
    );
    assert_eq!(r, Err(SignalError::InvalidRange));
}

/// A random signal always draws its amplitude below one hundred and its
/// phase below its period.
#[test]
fn random_signal_draws_in_range() {
    for _ in 0..50 {
        let g = SignalGenerator::random_signal(
            16,
            true,
            Fixed::from_units(1),
            Fixed::from_units(0),
            get_min_limit(),
            get_max_limit(),
        )
        .unwrap();
        let amplitude = g.inner.get_amplitude();
        let period = g.inner.get_period();
        let phase = g.inner.get_phase();
        assert!(0 <= amplitude.raw && amplitude.raw < 100_000_000);
        assert!(1 <= period.raw && period.raw < 10_000_000);
        assert!(0 <= phase.raw && phase.raw < period.raw);
    }
}

/// Equality compares the waveform family and all nine scalar parameters.
#[test]
fn generator_equality() {
    let build = |amp: i64| {
        SignalGenerator::new(
            SignalType::Triangle,
            Fixed::from_units(-10),
            Fixed::from_units(10),
            Fixed::from_units(amp),
            Fixed::from_units(4),
            Fixed::from_units(1),
            8,
            false,
            Fixed::from_units(1),
            Fixed::from_units(0),
        )
        .unwrap()
    };
    assert_eq!(build(5), build(5));
    assert_ne!(build(5), build(6));
}

/// With the noise draw fixed, every sample is a deterministic, exact
/// function of the parameters and the time.
#[test]
fn calculate_with_exact_values() {
    let build = |ty: SignalType, amplitude: i64, period_raw: i128| {
        SignalGenerator::new(
            ty,
            Fixed::from_units(-50),
            Fixed::from_units(50),
            Fixed::from_units(amplitude),
            Fixed::from_micros(period_raw),
            Fixed::from_units(0),
            16,
            true,
            Fixed::from_units(1),
            Fixed::from_units(0),
        )
        .unwrap()
        .inner
    };
    let zero = Fixed::from_units(0);

    // Constant: the amplitude itself.
    let constant = build(SignalType::Constant, 10, 0);
    assert_eq!(constant.calculate_with(Fixed::from_units(123), zero), 10);

    // Sawtooth at a quarter period: amplitude * (2 * 1/4 - 1) = -amplitude / 2.
    let sawtooth = build(SignalType::Sawtooth, 8, 10_000_000);
    assert_eq!(sawtooth.calculate_with(Fixed::from_micros(2_500_000), zero), -4);

    // Triangle: rising, falling and returning segments.
    let triangle = build(SignalType::Triangle, 8, 10_000_000);
    assert_eq!(triangle.calculate_with(Fixed::from_micros(1_250_000), zero), 4);
    assert_eq!(triangle.calculate_with(Fixed::from_units(5), zero), 0);
    assert_eq!(triangle.calculate_with(Fixed::from_micros(8_750_000), zero), -4);

    // Square: the amplitude's sign flips at half the period.
    let square = build(SignalType::Square, 8, 10_000_000);
    assert_eq!(square.calculate_with(Fixed::from_units(1), zero), 8);
    assert_eq!(square.calculate_with(Fixed::from_units(6), zero), -8);

    // Sine with the period one full turn: a quarter turn reaches the
    // amplitude, the start sits at zero.
    let sine = build(SignalType::Sine, 10, 6_283_185);
    assert_eq!(sine.calculate_with(Fixed::from_micros(1_570_796), zero), 10);
    assert_eq!(sine.calculate_with(zero, zero), 0);

    // The same inputs always give the same sample.
    assert_eq!(
        sine.calculate_with(Fixed::from_units(3), Fixed::from_micros(5_000)),
        sine.calculate_with(Fixed::from_units(3), Fixed::from_micros(5_000)),
    );
}
