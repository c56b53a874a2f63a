use ptv::{date_iso_basic, date_rfc3339_millis, date_yyyy_mm_dd_hhmm, time_hms_or_blank, DateTime,
    Time};

fn dt(
    year: u32,
    month: u32,
    day: u32,
    hour: u32,
    minute: u32,
    second: u32,
    milli: u32,
) -> DateTime {
    DateTime { year, month, day, hour, minute, second, milli }
}

#[test]
fn blank_service_time_is_no_value() {
    assert_eq!(time_hms_or_blank("").unwrap(), None);
}

#[test]
fn service_time_decodes() {
    assert_eq!(
        time_hms_or_blank("05:30:00").unwrap(),
        Some(Time { hour: 5, minute: 30, second: 0 })
    );
}

#[test]
fn service_time_rejects_wrong_width() {
    let e = time_hms_or_blank("5:3").unwrap_err();
    assert_eq!(e.input, "5:3");
}

#[test]
fn service_time_rejects_out_of_range() {
    assert!(time_hms_or_blank("99:99:99").is_err());
    assert!(time_hms_or_blank("24:00:00").is_err());
    assert!(time_hms_or_blank("23:60:00").is_err());
    assert!(time_hms_or_blank("23:00:60").is_err());
}

#[test]
fn service_time_boundaries() {
    assert_eq!(
        time_hms_or_blank("23:59:59").unwrap(),
        Some(Time { hour: 23, minute: 59, second: 59 })
    );
    assert_eq!(
        time_hms_or_blank("00:00:00").unwrap(),
        Some(Time { hour: 0, minute: 0, second: 0 })
    );
}

#[test]
fn rfc3339_millis_decodes() {
    assert_eq!(
        date_rfc3339_millis("2021-03-04T05:06:07.089Z").unwrap(),
        dt(2021, 3, 4, 5, 6, 7, 89)
    );
}

#[test]
fn rfc3339_millis_requires_exact_shape() {
    assert!(date_rfc3339_millis("2021-03-04T05:06:07Z").is_err());
    assert!(date_rfc3339_millis("2021-03-04T05:06:07.089").is_err());
    assert!(date_rfc3339_millis("2021-03-04 05:06:07.089Z").is_err());
    let e = date_rfc3339_millis("garbage").unwrap_err();
    assert_eq!(e.input, "garbage");
}

#[test]
fn rfc3339_millis_validates_calendar() {
    assert!(date_rfc3339_millis("2023-02-29T00:00:00.000Z").is_err());
    assert_eq!(
        date_rfc3339_millis("2024-02-29T00:00:00.000Z").unwrap(),
        dt(2024, 2, 29, 0, 0, 0, 0)
    );
    assert!(date_rfc3339_millis("2100-02-29T00:00:00.000Z").is_err());
    assert_eq!(
        date_rfc3339_millis("2000-02-29T00:00:00.000Z").unwrap(),
        dt(2000, 2, 29, 0, 0, 0, 0)
    );
    assert!(date_rfc3339_millis("2021-04-31T00:00:00.000Z").is_err());
    assert!(date_rfc3339_millis("2021-00-01T00:00:00.000Z").is_err());
    assert!(date_rfc3339_millis("2021-13-01T00:00:00.000Z").is_err());
}

#[test]
fn iso_basic_decodes() {
    assert_eq!(date_iso_basic("2021-03-04T05:06:07").unwrap(), dt(2021, 3, 4, 5, 6, 7, 0));
}

#[test]
fn iso_basic_rejects_fractions_and_zones() {
    assert!(date_iso_basic("2021-03-04T05:06:07.089Z").is_err());
    assert!(date_iso_basic("2021-03-04T05:06").is_err());
    let e = date_iso_basic("2021-03-04").unwrap_err();
    assert_eq!(e.input, "2021-03-04");
}

#[test]
fn touch_format_encodes() {
    assert_eq!(date_yyyy_mm_dd_hhmm(&dt(2021, 3, 4, 5, 6, 7, 0)), "2021-03-04 05:06");
    assert_eq!(date_yyyy_mm_dd_hhmm(&dt(999, 12, 31, 23, 59, 0, 0)), "0999-12-31 23:59");
}
