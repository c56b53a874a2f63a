use ptv::{encode_query_fields, to_query, DateTime, DeparturesStopOpts, DeparturesStopRouteOpts,
    DisruptionsOpts, DisruptionsSpecificOpts, DisruptionModes, DisruptionStatus, ExpandOptions,
    FareEstimateOpts, Field, FieldVal, OutletsLatLongOpts, OutletsOpts, PatternsRunRouteOpts,
    RouteIdOpts, RouteOpts, RouteType, RunsIdOpts, RunsRefOpts, Scalar, SearchOpts,
    StopsIdRouteTypeOpts};
use ptv::query::decode_query_keys;

#[test]
fn all_absent_objects_encode_to_empty() {
    assert_eq!(to_query(&DeparturesStopOpts::default()), "");
    assert_eq!(to_query(&DeparturesStopRouteOpts::default()), "");
    assert_eq!(to_query(&DisruptionsOpts::default()), "");
    assert_eq!(to_query(&DisruptionsSpecificOpts::default()), "");
    assert_eq!(to_query(&FareEstimateOpts::default()), "");
    assert_eq!(to_query(&OutletsOpts::default()), "");
    assert_eq!(to_query(&OutletsLatLongOpts::default()), "");
    assert_eq!(to_query(&PatternsRunRouteOpts::default()), "");
    assert_eq!(to_query(&RouteOpts::default()), "");
    assert_eq!(to_query(&RouteIdOpts::default()), "");
    assert_eq!(to_query(&RunsRefOpts::default()), "");
    assert_eq!(to_query(&RunsIdOpts::default()), "");
    assert_eq!(to_query(&SearchOpts::default()), "");
    assert_eq!(to_query(&StopsIdRouteTypeOpts::default()), "");
}

#[test]
fn present_fields_encode_in_declaration_order() {
    let opts = DeparturesStopOpts {
        platform_numbers: Some(vec![1, 2]),
        gtfs: Some(true),
        date: Some(DateTime { year: 2021, month: 3, day: 4, hour: 5, minute: 6, second: 7, milli: 0 }),
        max_results: Some(10),
        ..Default::default()
    };
    assert_eq!(
        to_query(&opts),
        "platform_numbers=1&platform_numbers=2&gtfs=true&date_utc=2021-03-04T05:06:07&max_results=10"
    );
}

#[test]
fn keys_decode_back_in_order() {
    let opts = DeparturesStopOpts {
        platform_numbers: Some(vec![1, 2]),
        gtfs: Some(true),
        date: Some(DateTime { year: 2021, month: 3, day: 4, hour: 5, minute: 6, second: 7, milli: 0 }),
        max_results: Some(10),
        ..Default::default()
    };
    let q = to_query(&opts);
    assert_eq!(
        decode_query_keys(&q),
        vec!["platform_numbers", "platform_numbers", "gtfs", "date_utc", "max_results"]
    );
}

#[test]
fn keys_of_empty_query_are_none() {
    let keys = decode_query_keys("");
    assert!(keys.is_empty());
}

#[test]
fn empty_sequence_emits_nothing() {
    let opts = DeparturesStopOpts {
        platform_numbers: Some(Vec::new()),
        gtfs: Some(false),
        ..Default::default()
    };
    assert_eq!(to_query(&opts), "gtfs=false");
}

#[test]
fn disruption_filters_encode_as_numbers_and_lowercase() {
    let opts = DisruptionsOpts {
        route_types: Some(vec![RouteType::Train, RouteType::Other(9)]),
        modes: Some(vec![DisruptionModes::MetroTrain, DisruptionModes::General]),
        status: Some(DisruptionStatus::Current),
    };
    assert_eq!(
        to_query(&opts),
        "route_types=0&route_types=9&disruption_modes=1&disruption_modes=100&disruption_status=current"
    );
}

#[test]
fn expand_options_encode_as_names() {
    let opts = RunsIdOpts { expand: Some(vec![ExpandOptions::All, ExpandOptions::NoExpand]), date: None };
    assert_eq!(to_query(&opts), "expand=All&expand=None");
}

#[test]
fn touch_timestamps_use_the_outbound_format() {
    let opts = FareEstimateOpts {
        touch_on: Some(DateTime { year: 2021, month: 1, day: 2, hour: 3, minute: 4, second: 5, milli: 0 }),
        free_tram_zone: Some(true),
        ..Default::default()
    };
    assert_eq!(
        to_query(&opts),
        "journey_touch_on_utc=2021-01-02 03:04&is_journey_in_free_tram_zone=true"
    );
}

#[test]
fn sequence_elements_are_percent_encoded() {
    let fields = vec![Field {
        key: "k".to_string(),
        value: FieldVal::Many(vec![Scalar::Str("a b".to_string())]),
    }];
    assert_eq!(encode_query_fields(&fields), "k=a%20b");
}

#[test]
fn scalar_values_are_not_percent_encoded() {
    let fields = vec![Field {
        key: "k".to_string(),
        value: FieldVal::One(Scalar::Str("a b".to_string())),
    }];
    assert_eq!(encode_query_fields(&fields), "k=a b");
}

#[test]
fn route_name_passes_through() {
    let opts = RouteOpts {
        route_types: None,
        route_name: Some("Alamein".to_string()),
    };
    assert_eq!(to_query(&opts), "route_name=Alamein");
}
