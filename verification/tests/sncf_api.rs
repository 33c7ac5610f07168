use sncf_timer::api::{
    build_journeys_url, http_failure, journey_duration, journey_from_item, journey_row, journey_rows, places_url,
    stop_areas, FakeClient, FakeReply, JourneyItem, Place, PlacesResponse,
};
use sncf_timer::civil::{CivilDateTime, ZonedTime};

fn place(id: &str, name: &str, kind: Option<&str>) -> Place {
    Place { id: id.to_string(), name: name.to_string(), embedded_type: kind.map(|k| k.to_string()) }
}

fn utc(year: i16, month: i8, day: i8, hour: i8, minute: i8, epoch_seconds: i64) -> ZonedTime {
    let z = ZonedTime {
        civil: CivilDateTime { year, month, day, hour, minute, second: 0 },
        offset_seconds: 0,
        epoch_seconds,
    };
    let check = jiff::civil::date(year, month, day)
        .at(hour, minute, 0, 0)
        .to_zoned(jiff::tz::TimeZone::UTC)
        .unwrap()
        .timestamp()
        .as_second();
    assert_eq!(check, epoch_seconds);
    z
}

#[test]
fn places_url_keeps_plain_query() {
    assert_eq!(places_url("Grenoble"), "https://api.sncf.com/v1/coverage/sncf/places?q=Grenoble");
}

#[test]
fn places_url_percent_encodes_query() {
    assert_eq!(
        places_url("Saint Étienne & co"),
        "https://api.sncf.com/v1/coverage/sncf/places?q=Saint%20%C3%89tienne%20%26%20co"
    );
    assert_eq!(places_url("a-b_c.d~e"), "https://api.sncf.com/v1/coverage/sncf/places?q=a-b_c.d~e");
}

#[test]
fn journeys_url_encodes_ids() {
    assert_eq!(
        build_journeys_url("stop_area:SNCF:87747006", "stop_area:SNCF:87686006"),
        "https://api.sncf.com/v1/coverage/sncf/journeys?from=stop_area%3ASNCF%3A87747006&to=stop_area%3ASNCF%3A87686006&first_section_mode[]=walking&last_section_mode[]=walking&min_nb_transfers=0&direct_path=none&min_nb_journeys=25&is_journey_schedules=True"
    );
}

#[test]
fn encoded_query_has_only_url_safe_chars() {
    let url = places_url("a&b=c#d?e/f g%");
    let query = &url["https://api.sncf.com/v1/coverage/sncf/places?q=".len()..];
    assert_eq!(query, "a%26b%3Dc%23d%3Fe%2Ff%20g%25");
    assert!(query.chars().all(|c| c.is_ascii_alphanumeric() || "-._~%".contains(c)));
}

#[test]
fn http_failure_message() {
    assert_eq!(http_failure("404 Not Found"), "HTTP 404 Not Found");
}

#[test]
fn stop_areas_keep_only_stations_in_order() {
    let response = PlacesResponse {
        places: vec![
            place("stop_area:1", "Grenoble", Some("stop_area")),
            place("admin:1", "Grenoble (38000)", Some("administrative_region")),
            place("addr:1", "Rue de Grenoble", None),
            place("stop_area:2", "Grenoble Universités", Some("stop_area")),
        ],
    };
    let kept = stop_areas(&response.places);
    let names: Vec<&str> = kept.iter().map(|p| p.name.as_str()).collect();
    assert_eq!(names, vec!["Grenoble", "Grenoble Universités"]);
    assert_eq!(kept[1].id, "stop_area:2");
}

#[test]
fn stop_areas_of_nothing() {
    assert!(stop_areas(&Vec::new()).is_empty());
}

#[test]
fn journey_row_fields() {
    let dep = utc(2024, 6, 19, 15, 22, 1_718_810_520);
    let arr = utc(2024, 6, 19, 17, 5, 1_718_816_700);
    let row = journey_row(dep, arr, Some(2));
    assert_eq!(row.dep_hm, "15:22");
    assert_eq!(row.arr_hm, "17:05");
    assert_eq!(row.date_str, "2024-06-19");
    assert_eq!(row.duration_secs, 6180);
    assert_eq!(row.nb_transfers, 2);
    assert_eq!(row.dep, dep);
    assert_eq!(row.arr, arr);
}

#[test]
fn journey_row_without_transfer_count() {
    let dep = utc(2024, 6, 19, 15, 22, 1_718_810_520);
    let arr = utc(2024, 6, 19, 15, 20, 1_718_810_400);
    let row = journey_row(dep, arr, None);
    assert_eq!(row.nb_transfers, 0);
    assert_eq!(row.duration_secs, -120);
}

fn item(dep: &str, arr: &str, nb: Option<i64>) -> JourneyItem {
    JourneyItem {
        departure_date_time: dep.to_string(),
        arrival_date_time: arr.to_string(),
        duration: None,
        nb_transfers: nb,
    }
}

#[test]
fn journey_from_item_reads_both_times() {
    let row = journey_from_item(&item("20240619T152200", "20240619T170500", Some(1))).unwrap();
    assert_eq!(row.duration_secs, row.arr.epoch_seconds - row.dep.epoch_seconds);
    assert_eq!(row.duration_secs, 6180);
    assert_eq!(row.nb_transfers, 1);
}

#[test]
fn journey_from_item_skips_unreadable_times() {
    assert!(journey_from_item(&item("", "20240619T170500", None)).is_none());
    assert!(journey_from_item(&item("20240619T152200", "later", None)).is_none());
}

#[test]
fn journey_rows_skip_unreadable_and_keep_order() {
    let items = vec![
        item("20240619T080000", "20240619T090000", Some(0)),
        item("garbage", "20240619T090000", Some(5)),
        item("20240619T100000", "20240619T113000", None),
    ];
    let rows = journey_rows(&items);
    assert_eq!(rows.len(), 2);
    assert_eq!(rows[0].duration_secs, 3600);
    assert_eq!(rows[1].duration_secs, 5400);
    assert_eq!(rows[1].nb_transfers, 0);
}

#[test]
fn fake_client_answers_known_url_only() {
    let client = FakeClient::new();
    assert_eq!(client.get("https://api.sncf.com/v1/coverage/sncf/places?q=Grenoble"), FakeReply::Places);
    assert_eq!(client.get("https://api.sncf.com/v1/coverage/sncf/places?q=Lyon"), FakeReply::Empty);
    let other = FakeClient::default();
    assert_eq!(other.get(""), FakeReply::Empty);
}

#[test]
fn reported_duration_wins() {
    let dep = utc(2024, 6, 19, 15, 22, 1_718_810_520);
    let arr = utc(2024, 6, 19, 17, 5, 1_718_816_700);
    assert_eq!(journey_duration(Some(4200), &dep, &arr), 4200);
}

#[test]
fn measured_duration_reads_back_printed_instants() {
    let dep = utc(2024, 6, 19, 15, 22, 1_718_810_520);
    let arr = utc(2024, 6, 19, 17, 5, 1_718_816_700);
    assert_eq!(journey_duration(None, &dep, &arr), 6180);
    assert_eq!(journey_duration(None, &arr, &dep), 0);
}
