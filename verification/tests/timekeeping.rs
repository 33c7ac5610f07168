use sncf_timer::civil::{
    format_date, format_hm, parse_sncf_civil, parse_sncf_dt, rfc3339z_is_safe, rfc3339z_to_epoch,
    sncf_dt_is_safe,
    CivilDateTime, ZonedTime,
};
use sncf_timer::display::format_hhmmss;

fn civil(year: i16, month: i8, day: i8, hour: i8, minute: i8, second: i8) -> CivilDateTime {
    CivilDateTime { year, month, day, hour, minute, second }
}

fn utc(c: CivilDateTime) -> ZonedTime {
    let epoch_seconds = jiff::civil::date(c.year, c.month, c.day)
        .at(c.hour, c.minute, c.second, 0)
        .to_zoned(jiff::tz::TimeZone::UTC)
        .unwrap()
        .timestamp()
        .as_second();
    ZonedTime { civil: c, offset_seconds: 0, epoch_seconds }
}

#[test]
fn epoch_of_unix_origin_is_zero() {
    assert_eq!(rfc3339z_to_epoch("1970-01-01T00:00:00Z"), Some(0));
}

#[test]
fn epoch_of_a_summer_afternoon() {
    assert_eq!(rfc3339z_to_epoch("2024-06-19T19:22:45Z"), Some(1_718_824_965));
}

#[test]
fn epoch_after_leap_day() {
    assert_eq!(rfc3339z_to_epoch("2024-03-01T00:00:00Z"), Some(1_709_251_200));
    assert_eq!(rfc3339z_to_epoch("2000-03-01T00:00:00Z"), Some(951_868_800));
    assert_eq!(rfc3339z_to_epoch("1900-03-01T00:00:00Z"), Some(-2_203_891_200));
}

#[test]
fn epoch_before_unix_origin() {
    assert_eq!(rfc3339z_to_epoch("1969-12-31T23:59:59Z"), Some(-1));
}

#[test]
fn epoch_rejects_short_text() {
    assert_eq!(rfc3339z_to_epoch("2024-06-19T19:22Z"), None);
}

#[test]
fn epoch_rejects_text_without_z() {
    assert_eq!(rfc3339z_to_epoch("2024-06-19T19:22:45+00:00"), None);
}

#[test]
fn epoch_rejects_non_digits() {
    assert_eq!(rfc3339z_to_epoch("2024-06-1xT19:22:45Z"), None);
    assert_eq!(rfc3339z_to_epoch("2024-+-19T19:22:45Z"), None);
}

#[test]
fn epoch_ignores_fraction_before_z() {
    assert_eq!(rfc3339z_to_epoch("1970-01-01T00:00:01.500Z"), Some(1));
}

#[test]
fn epoch_takes_day_unchecked() {
    // February 31st is read as March 3rd (2024 is a leap year).
    assert_eq!(rfc3339z_to_epoch("2024-02-31T00:00:00Z"), rfc3339z_to_epoch("2024-03-02T00:00:00Z"));
}

#[test]
fn epoch_of_year_zero_counts_as_the_reader_does() {
    assert_eq!(rfc3339z_to_epoch("0000-01-01T00:00:00Z"), Some(-62_167_132_800));
}

#[test]
fn epoch_reads_back_what_jiff_prints() {
    for t in [0i64, 1, 86_399, 951_782_400, 1_718_824_965, 4_102_444_800, -1, -2_208_988_800] {
        let text = jiff::Timestamp::from_second(t).unwrap().to_string();
        assert_eq!(rfc3339z_to_epoch(&text), Some(t), "{}", text);
    }
}

#[test]
fn sncf_notation_reads_fields() {
    assert_eq!(parse_sncf_civil("20240619T152245"), Some(civil(2024, 6, 19, 15, 22, 45)));
    assert_eq!(parse_sncf_civil("20240619T152245Z"), Some(civil(2024, 6, 19, 15, 22, 45)));
}

#[test]
fn sncf_notation_rejects_short_or_bad_text() {
    assert_eq!(parse_sncf_civil("20240619T1522"), None);
    assert_eq!(parse_sncf_civil("2024x619T152245"), None);
    assert_eq!(parse_sncf_civil("20240619T15224x"), None);
    assert!(parse_sncf_dt("").is_none());
}

#[test]
fn sncf_notation_sign_rules() {
    assert_eq!(parse_sncf_civil("+9990619T152245"), Some(civil(999, 6, 19, 15, 22, 45)));
    assert_eq!(parse_sncf_civil("20240619T+52245"), Some(civil(2024, 6, 19, 5, 22, 45)));
}

#[test]
fn sncf_safety_check() {
    assert!(sncf_dt_is_safe("20240619T152245"));
    assert!(sncf_dt_is_safe("short"));
    assert!(sncf_dt_is_safe("2024x619T152245"));
    // a month of 13 would make jiff panic
    assert!(!sncf_dt_is_safe("20241319T152245"));
    // February 30th too
    assert!(!sncf_dt_is_safe("20240230T120000"));
    // a slice boundary inside a two-byte char
    assert!(!sncf_dt_is_safe("202é0619T152245"));
    // a non-digit two-byte char that fills a field is simply not a number
    assert!(sncf_dt_is_safe("2024é619T152245"));
}

#[test]
fn sncf_notation_resolves_in_local_zone() {
    let z = parse_sncf_dt("20240619T152245").expect("resolves");
    let local = jiff::civil::date(2024, 6, 19)
        .at(15, 22, 45, 0)
        .to_zoned(jiff::tz::TimeZone::system())
        .unwrap();
    assert_eq!(z.epoch_seconds, local.timestamp().as_second());
    assert_eq!(z.offset_seconds, local.offset().seconds());
    assert_eq!(z.civil, civil(2024, 6, 19, 15, 22, 45));
}

#[test]
fn hm_and_date_of_a_zoned_time() {
    let z = utc(civil(2024, 6, 19, 15, 22, 45));
    assert_eq!(format_hm(&z), "15:22");
    assert_eq!(format_date(&z), "2024-06-19");
}

#[test]
fn hm_and_date_pad_small_numbers() {
    let z = utc(civil(987, 1, 2, 3, 4, 5));
    assert_eq!(format_hm(&z), "03:04");
    assert_eq!(format_date(&z), "0987-01-02");
}

#[test]
fn hm_and_date_of_a_negative_year_cut_jiff_text() {
    let z = utc(civil(-5, 1, 2, 3, 4, 5));
    assert_eq!(format_date(&z), "-000005-01");
    assert_eq!(format_hm(&z), "02T03");
}

#[test]
fn hhmmss_of_zero() {
    assert_eq!(format_hhmmss(0), "00:00:00");
}

#[test]
fn hhmmss_of_an_hour_and_a_bit() {
    assert_eq!(format_hhmmss(3661), "01:01:01");
    assert_eq!(format_hhmmss(59), "00:00:59");
}

#[test]
fn hhmmss_widens_past_99_hours() {
    assert_eq!(format_hhmmss(360_000), "100:00:00");
    assert_eq!(format_hhmmss(u64::MAX), "5124095576030431:00:15");
}

#[test]
fn shown_date_and_time_are_the_sent_digits() {
    let c = parse_sncf_civil("20240619T081530").unwrap();
    let z = utc(c);
    assert_eq!(format_hm(&z), "08:15");
    assert_eq!(format_date(&z), "2024-06-19");
}

#[test]
fn utc_helper_matches_the_epoch_reader() {
    let z = utc(civil(2024, 6, 19, 15, 22, 45));
    assert_eq!(Some(z.epoch_seconds), rfc3339z_to_epoch("2024-06-19T15:22:45Z"));
}

#[test]
fn epoch_safety_check() {
    assert!(rfc3339z_is_safe("1970-01-01T00:00:00Z"));
    assert!(rfc3339z_is_safe("short"));
    assert!(rfc3339z_is_safe("2024-xx-01T00:00:00Z"));
    // a month of 13 would index past the table of month lengths
    assert!(!rfc3339z_is_safe("2024-13-01T00:00:00Z"));
    assert!(!rfc3339z_is_safe("2024-00-01T00:00:00Z"));
    // a slice boundary inside a two-byte char
    assert!(!rfc3339z_is_safe("202é-01-01T00:00:00Z"));
}

#[test]
fn sncf_notation_resolves_well_inside_the_range_of_instants() {
    let early = parse_sncf_dt("00010101T000000").expect("year 1 resolves in any zone");
    assert_eq!(early.epoch_seconds, -62135596800 - early.offset_seconds as i64);
    let late = parse_sncf_dt("99991229T000000").expect("late 9999 resolves in any zone");
    assert_eq!(late.epoch_seconds, 253402041600 - late.offset_seconds as i64);
}

#[test]
fn reading_utc_texts_keeps_their_order() {
    let texts = [
        "0001-01-01T00:00:00Z",
        "1969-12-31T23:59:59Z",
        "1970-01-01T00:00:00Z",
        "2024-02-29T08:05:09Z",
        "2024-06-19T08:00:00Z",
        "2024-06-19T08:00:01Z",
        "2024-06-19T10:00:00Z",
        "9999-12-31T23:59:59Z",
    ];
    for a in texts {
        for b in texts {
            let ra = rfc3339z_to_epoch(a).unwrap();
            let rb = rfc3339z_to_epoch(b).unwrap();
            assert_eq!(a.as_bytes() < b.as_bytes(), ra < rb, "{a} {b}");
            assert_eq!(a == b, ra == rb, "{a} {b}");
        }
    }
}
