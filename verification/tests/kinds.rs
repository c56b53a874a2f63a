use ptv::{DecodeError, DisruptionModes, DisruptionStatus, ExpandOptions, I32ButSilly, RouteType};

#[test]
fn route_type_codes_round_trip() {
    let cases = [
        (RouteType::Train, 0i8),
        (RouteType::Tram, 1),
        (RouteType::Bus, 2),
        (RouteType::VLine, 3),
        (RouteType::NightBus, 4),
        (RouteType::Other(9), 9),
        (RouteType::Other(-1), -1),
    ];
    for (rt, code) in cases {
        assert_eq!(rt.as_code(), code);
        assert_eq!(RouteType::from_code(code), rt);
    }
}

#[test]
fn disruption_mode_numbers() {
    assert_eq!(DisruptionModes::MetroTrain.as_number(), 1);
    assert_eq!(DisruptionModes::MetroBus.as_number(), 2);
    assert_eq!(DisruptionModes::RegionalBus.as_number(), 7);
    assert_eq!(DisruptionModes::Taxi.as_number(), 14);
    assert_eq!(DisruptionModes::General.as_number(), 100);
}

#[test]
fn expand_options_spell_their_names() {
    assert_eq!(ExpandOptions::All.as_str(), "All");
    assert_eq!(ExpandOptions::VehiclePosition.as_str(), "VehiclePosition");
    assert_eq!(ExpandOptions::VehicleDescriptor.as_str(), "VehicleDescriptor");
    assert_eq!(ExpandOptions::NoExpand.as_str(), "None");
}

#[test]
fn disruption_status_text_round_trip() {
    assert_eq!(DisruptionStatus::Current.as_str(), "current");
    assert_eq!(DisruptionStatus::Planned.as_str(), "planned");
    assert_eq!(DisruptionStatus::from_str("current"), Some(DisruptionStatus::Current));
    assert_eq!(DisruptionStatus::from_str("Current"), Some(DisruptionStatus::Current));
    assert_eq!(DisruptionStatus::from_str("planned"), Some(DisruptionStatus::Planned));
    assert_eq!(DisruptionStatus::from_str("Planned"), Some(DisruptionStatus::Planned));
    assert_eq!(DisruptionStatus::from_str("CURRENT"), None);
    assert_eq!(DisruptionStatus::from_str("past"), None);
}

#[test]
fn string_encoded_integer_newtype_decodes() {
    assert_eq!(I32ButSilly::from_str("42").unwrap(), I32ButSilly(42));
    let e = I32ButSilly::from_str("forty-two").unwrap_err();
    assert_eq!(e.input, "forty-two");
}

#[test]
fn decode_errors_carry_input_and_format() {
    let e = DecodeError::new("a time of the form HH:MM:SS", "5:3");
    assert_eq!(e.message(), "could not decode '5:3' as a time of the form HH:MM:SS");
}
