use zarr_tiles::attributes::Attributes;
use zarr_tiles::error::ZarrError;
use zarr_tiles::time::{
    find_closest_binary, get_time_attrs, has_epoch, raw_time, time_type, Moment, TimeMetadata,
    TimeType,
};

const DAY: i64 = 86_400;

fn attributes(entries: &[(&str, &str)]) -> Attributes {
    let mut found = Attributes::new();
    for (key, json) in entries {
        found.insert(key.to_string(), json.to_string());
    }
    found
}

fn at(seconds: i64, nanos: u32) -> Moment {
    Moment { seconds, nanos }
}

#[test]
fn units_are_parsed() {
    let meta = TimeMetadata::parse_zarr_time_attrs("Seconds since 1970-01-01", "standard").unwrap();
    assert_eq!(meta.units, "seconds");
    assert_eq!(meta.epoch, 0);
    assert_eq!(meta.calendar, "standard");
    let meta =
        TimeMetadata::parse_zarr_time_attrs("days since 2000-03-01 12:00:00", "noleap").unwrap();
    assert_eq!(meta.units, "days");
    assert_eq!(meta.epoch, 951_868_800);
    let meta = TimeMetadata::parse_zarr_time_attrs("hours since 1969-12-31 since x", "").unwrap();
    assert_eq!(meta.epoch, -DAY);
}

#[test]
fn a_wrong_date_is_refused() {
    for units in ["days since yesterday", "days since 2001-02-29", "days since "] {
        assert!(has_epoch(units));
        let r = TimeMetadata::parse_zarr_time_attrs(units, "standard");
        assert!(matches!(r, Err(ZarrError::ParseError(_))));
    }
    assert!(!has_epoch("days"));
    assert!(!has_epoch("days since"));
}

#[test]
fn moments_are_counted_in_units() {
    let count = |units: &str, moment| {
        let text = format!("{units} since 1970-01-02");
        let raw = TimeMetadata::parse_zarr_time_attrs(&text, "").unwrap().datetime_to_raw(&moment);
        (raw.seconds, raw.numerator, raw.denominator)
    };
    assert_eq!(count("days", at(3 * DAY, 0)), (2 * 86_400, 1, 86_400));
    assert_eq!(count("HOURS", at(DAY, 999)), (0, 1, 3600));
    assert_eq!(count("minutes", at(DAY + 60, 0)), (60, 1, 60));
    assert_eq!(count("milliseconds", at(DAY + 1, 0)), (1, 1000, 1));
    assert_eq!(count("microseconds", at(DAY + 1, 0)), (1, 1_000_000, 1));
    assert_eq!(count("seconds", at(DAY + 1, 0)), (1, 1, 1));
    assert_eq!(count("fortnights", at(DAY + 1, 0)), (1, 1, 1));
    // a part of a second is dropped, before the epoch too
    assert_eq!(count("seconds", at(DAY - 2, 500_000_000)), (-1, 1, 1));
    assert_eq!(count("seconds", at(DAY - 1, 1)), (0, 1, 1));
    // a leap second is the second behind the one before
    assert_eq!(count("seconds", at(DAY + 59, 1_000_000_000)), (60, 1, 1));
    assert_eq!(count("seconds", at(DAY - 12, 999_999_999)), (-11, 1, 1));
    assert_eq!(count("seconds", at(DAY - 11, 1_300_000_000)), (-9, 1, 1));
    assert_eq!(count("seconds", at(DAY - 10, 0)), (-10, 1, 1));
    assert_eq!(count("seconds", at(DAY - 10, 1)), (-9, 1, 1));
}

#[test]
fn time_attributes_have_to_be_texts() {
    let full = attributes(&[
        ("units", "\"days since 1970-01-01\""),
        ("calendar", "\"standard\""),
    ]);
    assert_eq!(
        get_time_attrs(&full).unwrap(),
        ("days since 1970-01-01".to_string(), "standard".to_string())
    );
    let raw = raw_time(&full, &at(5, 0)).unwrap().unwrap();
    assert_eq!((raw.seconds, raw.numerator, raw.denominator), (5, 1, 86_400));

    let text = |e| match e {
        ZarrError::TimeError(text) => text,
        _ => panic!("another error"),
    };
    let none = attributes(&[("units", "7"), ("calendar", "\"standard\"")]);
    assert_eq!(text(get_time_attrs(&none).unwrap_err()), "Could not get time units");
    let none = attributes(&[("units", "\"days\"")]);
    assert_eq!(
        text(raw_time(&none, &at(0, 0)).err().unwrap()),
        "Could not get calendar metadata"
    );
    let vague = attributes(&[("units", "\"days\""), ("calendar", "\"\"")]);
    assert!(raw_time(&vague, &at(0, 0)).unwrap().is_none());
    let wrong = attributes(&[("units", "\"days since x\""), ("calendar", "\"\"")]);
    assert!(matches!(raw_time(&wrong, &at(0, 0)), Err(ZarrError::ParseError(_))));
}

#[test]
fn two_data_types_are_known() {
    assert_eq!(time_type(Some("float32")).unwrap(), TimeType::Float32);
    assert_eq!(time_type(Some("float64")).unwrap(), TimeType::Float64);
    for name in [Some("int64"), None] {
        match time_type(name) {
            Err(ZarrError::DimensionError(text)) => assert_eq!(text, "Data type not supported"),
            _ => panic!("should be refused"),
        }
    }
}

fn closest(times: &[f64], target: f64) -> usize {
    let bits = times.iter().map(|t| t.to_bits()).collect();
    let distances = times.iter().map(|t| (t - target).abs().to_bits()).collect();
    find_closest_binary(&Some(bits), target.to_bits(), &distances).unwrap()
}

#[test]
fn the_closest_time_is_found() {
    let times = [-5.0, -1.0, 0.0, 2.0, 10.0];
    assert_eq!(closest(&times, 2.0), 3);
    assert_eq!(closest(&times, -0.0), 2);
    assert_eq!(closest(&times, -100.0), 0);
    assert_eq!(closest(&times, 100.0), 4);
    assert_eq!(closest(&times, 5.9), 3);
    assert_eq!(closest(&times, 6.1), 4);
    // of two at one distance, the later one
    assert_eq!(closest(&times, 6.0), 4);
    assert_eq!(closest(&times, -3.0), 1);
    assert_eq!(closest(&[], 1.0), 0);
    assert_eq!(closest(&[7.0], 1.0), 0);
    assert!(closest(&[1.0, 2.0, 2.0, 3.0], 2.0) == 1 || closest(&[1.0, 2.0, 2.0, 3.0], 2.0) == 2);
    assert!(closest(&times, f64::NAN) < 5);
    assert!(closest(&[3.0, 1.0, 2.0], 1.0) < 3);
}

#[test]
fn times_apart_in_memory_are_refused() {
    match find_closest_binary(&None, 0, &vec![]) {
        Err(ZarrError::TimeError(text)) => assert_eq!(text, "Could not convert to slice"),
        _ => panic!("should be refused"),
    }
}

#[test]
fn no_time_is_nearer_than_the_closest() {
    let times = [-8.5, -2.0, -1.5, 0.25, 4.0, 4.5, 100.0];
    for k in -200..1200 {
        let target = f64::from(k) / 10.0;
        let found = closest(&times, target);
        for t in times {
            assert!((times[found] - target).abs() <= (t - target).abs());
        }
    }
}
