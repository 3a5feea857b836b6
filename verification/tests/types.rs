use can_message_data_generator::fixed::Fixed;
use can_message_data_generator::signal_type::SignalType;

#[test]
fn names_round_trip() {
    for ty in SignalType::get_types() {
        let name = ty.to_string();
        assert_eq!(SignalType::parse(name), ty);
        assert_eq!(SignalType::from(name), ty);
        assert_eq!(SignalType::from_string(name), ty);
    }
}

#[test]
fn five_types_in_order() {
    let types = SignalType::get_types();
    assert_eq!(
        types,
        vec![
            SignalType::Sine,
            SignalType::Square,
            SignalType::Triangle,
            SignalType::Sawtooth,
            SignalType::Constant,
        ]
    );
}

#[test]
fn unrecognized_name_is_rejected() {
    assert_eq!(SignalType::try_from_string("sine"), None);
    assert_eq!(SignalType::try_from_string(""), None);
    assert_eq!(SignalType::try_from_string("Cosine"), None);
    assert_eq!(SignalType::try_from_string("Square"), Some(SignalType::Square));
}

#[test]
fn fixed_units_and_micros() {
    assert_eq!(Fixed::from_units(5).raw, 5_000_000);
    assert_eq!(Fixed::from_units(-3).raw, -3_000_000);
    assert_eq!(Fixed::from_micros(123).raw, 123);
    assert_eq!(Fixed::from_units(0), Fixed::from_micros(0));
}
