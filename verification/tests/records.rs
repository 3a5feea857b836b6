use can_message_data_generator::errors::SignalError;
use can_message_data_generator::fixed::Fixed;
use can_message_data_generator::record::Value;
use can_message_data_generator::signal_generator::{get_max_limit, get_min_limit, SignalGenerator};
use can_message_data_generator::signal_type::SignalType;

fn sin_demo() -> SignalGenerator {
    SignalGenerator::new(
        SignalType::Sine,
        Fixed::from_units(0),
        Fixed::from_units(101),
        Fixed::from_units(12),
        // The circle constant in micro-units.
        Fixed::from_micros(3_141_593),
        Fixed::from_units(0),
        16,
        true,
        Fixed::from_units(1),
        Fixed::from_units(0),
    )
    .unwrap()
}

#[test]
fn serialize_sin_demo() {
    let signal = sin_demo();
    let record = signal.encode();
    let expected = vec![
        ("type", Value::Text("Sine".to_owned())),
        ("minimum", Value::Real(Fixed::from_units(0))),
        ("maximum", Value::Real(Fixed::from_units(101))),
        ("amplitude", Value::Real(Fixed::from_units(12))),
        ("period", Value::Real(Fixed::from_micros(3_141_593))),
        ("phase", Value::Real(Fixed::from_units(0))),
        ("num_bits", Value::Bits(16)),
        ("is_signed", Value::Flag(true)),
        ("scale", Value::Real(Fixed::from_units(1))),
        ("offset", Value::Real(Fixed::from_units(0))),
    ];
    assert_eq!(record.len(), expected.len());
    for (got, want) in record.iter().zip(expected.iter()) {
        assert_eq!(got.0.as_str(), want.0);
        assert_eq!(got.1, want.1);
    }
}

/// Decoding the encoding of a generator gives the generator back.
#[test]
fn encode_decode_round_trip() {
    let signal = sin_demo();
    let record = signal.encode();
    let back = SignalGenerator::decode_map(&record).unwrap();
    assert_eq!(back, signal);
}

/// The round trip also holds when the bounds were auto-derived.
#[test]
fn encode_decode_round_trip_derived_bounds() {
    let signal = SignalGenerator::new(
        SignalType::Sawtooth,
        get_min_limit(),
        get_max_limit(),
        Fixed::from_units(3),
        Fixed::from_units(2),
        Fixed::from_units(1),
        32,
        true,
        Fixed::from_units(1),
        Fixed::from_units(0),
    )
    .unwrap();
    let record = signal.encode();
    let back = SignalGenerator::decode_map(&record).unwrap();
    assert_eq!(back, signal);
}

/// The positional form decodes to the same generator as the named form.
#[test]
fn decode_seq_matches_map() {
    let signal = sin_demo();
    let record = signal.encode();
    let values: Vec<Value> = record.iter().map(|e| e.1.clone()).collect();
    let from_seq = SignalGenerator::decode_seq(&values).unwrap();
    let from_map = SignalGenerator::decode_map(&record).unwrap();
    assert_eq!(from_seq, from_map);
    assert_eq!(from_seq, signal);
}

fn record_without(field: &str) -> Vec<(String, Value)> {
    sin_demo()
        .encode()
        .into_iter()
        .filter(|e| e.0 != field)
        .collect()
}

#[test]
fn missing_offset_rejected() {
    let record = record_without("offset");
    let err = SignalGenerator::decode_map(&record).unwrap_err();
    assert_eq!(err, SignalError::MissingField("offset".to_owned()));
}

#[test]
fn missing_type_rejected() {
    let record = record_without("type");
    let err = SignalGenerator::decode_map(&record).unwrap_err();
    assert_eq!(err, SignalError::MissingField("type".to_owned()));
}

#[test]
fn duplicate_field_rejected() {
    let mut record = sin_demo().encode();
    record.push(("phase".to_owned(), Value::Real(Fixed::from_units(1))));
    let err = SignalGenerator::decode_map(&record).unwrap_err();
    assert_eq!(err, SignalError::DuplicateField("phase".to_owned()));
}

#[test]
fn unknown_field_rejected() {
    let mut record = sin_demo().encode();
    record.push(("frequency".to_owned(), Value::Real(Fixed::from_units(440))));
    let err = SignalGenerator::decode_map(&record).unwrap_err();
    assert_eq!(err, SignalError::UnknownField("frequency".to_owned()));
}

#[test]
fn invalid_type_string_rejected() {
    let mut record = sin_demo().encode();
    record[0].1 = Value::Text("Cosine".to_owned());
    let err = SignalGenerator::decode_map(&record).unwrap_err();
    assert_eq!(err, SignalError::InvalidSignalType);
}

#[test]
fn wrong_value_kind_rejected() {
    let mut record = sin_demo().encode();
    record[1].1 = Value::Flag(true);
    let err = SignalGenerator::decode_map(&record).unwrap_err();
    assert_eq!(err, SignalError::InvalidFieldValue("minimum".to_owned()));
}

#[test]
fn decoded_range_must_be_ordered() {
    let mut record = sin_demo().encode();
    record[1].1 = Value::Real(Fixed::from_units(200));
    let err = SignalGenerator::decode_map(&record).unwrap_err();
    assert_eq!(err, SignalError::InvalidRange);
}

#[test]
fn short_sequence_rejected() {
    let values = vec![Value::Text("Sine".to_owned())];
    let err = SignalGenerator::decode_seq(&values).unwrap_err();
    assert_eq!(err, SignalError::InvalidLength);
}
