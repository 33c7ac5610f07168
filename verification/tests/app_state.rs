use sncf_timer::api::{journey_row, JourneyRow, Place};
use sncf_timer::civil::{CivilDateTime, ZonedTime};
use sncf_timer::display::{
    clamp_selection, config_header, countdown_text, input_halves, journey_cells, journeys_panel,
    side_margin,
    JourneysPanel,
};
use sncf_timer::keys::{
    handle_duration_keys, handle_keys, handle_station_keys, handle_timer_keys, key_is_safe,
    parse_minutes, KeyAction, KeyCode, KeyEvent,
};
use sncf_timer::state::{App, AppConfig, Mode, SavedPlace, TickDuty};

const SEC: u128 = 1_000_000_000;

fn saved(id: &str, name: &str) -> SavedPlace {
    SavedPlace { id: id.to_string(), name: name.to_string() }
}

fn config(minutes: u64) -> AppConfig {
    AppConfig {
        start: saved("stop_area:A", "Grenoble"),
        destination: saved("stop_area:B", "Lyon Part-Dieu"),
        approach_minutes: minutes,
    }
}

fn station(id: &str, name: &str) -> Place {
    Place { id: id.to_string(), name: name.to_string(), embedded_type: Some("stop_area".to_string()) }
}

/// A journey leaving `k` seconds after 2024-06-19T08:00:00Z (k < 60).
fn row(k: i64) -> JourneyRow {
    let z = ZonedTime {
        civil: CivilDateTime { year: 2024, month: 6, day: 19, hour: 8, minute: 0, second: k as i8 },
        offset_seconds: 0,
        epoch_seconds: 1_718_784_000 + k,
    };
    journey_row(z, z, None)
}

fn key(code: KeyCode) -> KeyEvent {
    KeyEvent { code, ctrl: false }
}

#[test]
fn new_without_config_asks_for_start() {
    let app = App::new("key".to_string(), None, 7);
    assert_eq!(app.mode, Mode::InputStart);
    assert_eq!(app.timer.duration, 30 * SEC);
    assert_eq!(app.timer.start, 7);
    assert_eq!(app.input.last_edit_at, 7);
    assert!(app.chosen_start.is_none() && app.config.is_none());
    assert_eq!(app.api_key, "key");
}

#[test]
fn new_with_config_goes_to_countdown() {
    let app = App::new("key".to_string(), Some(config(5)), 0);
    assert_eq!(app.mode, Mode::Timer);
    assert_eq!(app.timer.duration, 300 * SEC);
    let start = app.chosen_start.as_ref().unwrap();
    assert_eq!(start.id, "stop_area:A");
    assert_eq!(start.embedded_type.as_deref(), Some("stop_area"));
    assert_eq!(app.chosen_dest.as_ref().unwrap().name, "Lyon Part-Dieu");
    assert_eq!(app.approach_minutes, Some(5));
}

#[test]
fn remaining_time_counts_down_to_zero() {
    let app = App::new("k".to_string(), None, 0);
    assert_eq!(app.remaining_time(0), 30 * SEC);
    assert_eq!(app.remaining_time(10 * SEC), 20 * SEC);
    assert_eq!(app.remaining_time(30 * SEC), 0);
    assert_eq!(app.remaining_time(99 * SEC), 0);
}

#[test]
fn input_titles() {
    let mut app = App::new("k".to_string(), None, 0);
    assert_eq!(app.input_title(), "Start station");
    app.mode = Mode::InputDest;
    assert_eq!(app.input_title(), "Destination station");
    app.mode = Mode::InputDuration;
    assert_eq!(app.input_title(), "Approach time (minutes)");
    app.mode = Mode::Timer;
    assert_eq!(app.input_title(), "");
}

#[test]
fn suggestion_items_cases() {
    let mut app = App::new("k".to_string(), None, 0);
    assert!(app.suggestion_items().is_empty());
    app.input.text = "Gr".to_string();
    assert_eq!(app.suggestion_items(), vec!["No results".to_string()]);
    app.input.suggestions = vec![station("1", "Grenoble"), station("2", "Gresy")];
    assert_eq!(app.suggestion_items(), vec!["Grenoble".to_string(), "Gresy".to_string()]);
    app.input.error = Some("HTTP 500".to_string());
    assert_eq!(app.suggestion_items(), vec!["Error: HTTP 500".to_string()]);
    app.input.loading = true;
    assert_eq!(app.suggestion_items(), vec!["Loading...".to_string()]);
    app.mode = Mode::InputDuration;
    assert_eq!(
        app.suggestion_items(),
        vec!["Error: HTTP 500".to_string(), "Enter minutes and press Enter".to_string()]
    );
    app.input.error = None;
    assert_eq!(app.suggestion_items(), vec!["Enter minutes and press Enter".to_string()]);
}

#[test]
fn reset_input_empties_field() {
    let mut app = App::new("k".to_string(), None, 0);
    app.input.text = "Gre".to_string();
    app.input.cursor = 3;
    app.input.suggestions = vec![station("1", "Grenoble")];
    app.input.last_queried = "Gre".to_string();
    app.input.error = Some("x".to_string());
    app.reset_input();
    assert!(app.input.text.is_empty() && app.input.cursor == 0 && app.input.suggestions.is_empty());
    assert!(app.input.last_queried.is_empty() && app.input.error.is_none());
}

#[test]
fn countdown_from_selection_takes_off_approach() {
    let mut app = App::new("k".to_string(), Some(config(5)), 0);
    app.update_timer_from_selection(3600, 42);
    assert_eq!(app.timer.duration, 300 * SEC);
    app.journeys = vec![row(10), row(20)];
    app.journeys_selected = 7;
    assert_eq!(app.selected_departure().unwrap().epoch_seconds, 1_718_784_020);
    app.timer.notified = true;
    app.update_timer_from_selection(3600, 42);
    assert_eq!(app.timer.duration, 3300 * SEC);
    assert_eq!(app.timer.start, 42);
    assert!(!app.timer.notified && app.timer.zero_at.is_none());
    app.update_timer_from_selection(120, 43);
    assert_eq!(app.timer.duration, 0);
}

#[test]
fn countdown_without_config_is_time_to_departure() {
    let mut app = App::new("k".to_string(), None, 0);
    app.journeys = vec![row(0)];
    app.update_timer_from_selection(90, 1);
    assert_eq!(app.timer.duration, 90 * SEC);
    app.update_timer_from_selection(-90, 1);
    assert_eq!(app.timer.duration, 0);
}

#[test]
fn suggestions_wait_for_debounce_and_new_text() {
    let mut app = App::new("k".to_string(), None, 0);
    app.input.text = "G".to_string();
    assert_eq!(app.suggestion_query(SEC), None);
    app.input.text = "Gr".to_string();
    app.input.last_edit_at = 1_000_000_000;
    assert_eq!(app.suggestion_query(1_349_999_999), None);
    assert_eq!(app.suggestion_query(1_350_000_000), Some("Gr".to_string()));
    assert!(app.input.loading);
    app.apply_suggestions("Gr".to_string(), Ok(vec![station("1", "Grenoble")]));
    assert!(!app.input.loading);
    assert_eq!(app.input.last_queried, "Gr");
    assert_eq!(app.suggestion_query(5 * SEC), None);
    app.apply_suggestions("Gre".to_string(), Err("HTTP 503".to_string()));
    assert_eq!(app.input.error.as_deref(), Some("HTTP 503"));
    assert_eq!(app.input.suggestions.len(), 1);
    assert_eq!(app.input.last_queried, "Gr");
}

#[test]
fn refresh_needs_config_and_keeps_selection_in_range() {
    let mut app = App::new("k".to_string(), None, 0);
    assert!(app.begin_refresh().is_none());
    let mut app = App::new("k".to_string(), Some(config(1)), 0);
    app.journeys_error = Some("old".to_string());
    let (from, to) = app.begin_refresh().unwrap();
    assert_eq!((from.as_str(), to.as_str()), ("stop_area:A", "stop_area:B"));
    assert!(app.journeys_loading && app.journeys_error.is_none());
    app.journeys_selected = 3;
    app.finish_refresh(Ok(vec![row(1), row(2)]));
    assert_eq!(app.journeys_selected, 0);
    assert!(!app.journeys_loading);
    app.journeys_selected = 1;
    app.finish_refresh(Err("HTTP 500".to_string()));
    assert_eq!(app.journeys.len(), 2);
    assert_eq!(app.journeys_selected, 1);
    assert_eq!(app.journeys_error.as_deref(), Some("HTTP 500"));
}

#[test]
fn notification_fires_once_at_zero() {
    let mut app = App::new("k".to_string(), Some(config(1)), 0);
    assert!(!app.timer_tick(59 * SEC));
    assert!(app.timer_tick(60 * SEC));
    assert_eq!(app.timer.zero_at, Some(60 * SEC));
    assert!(!app.timer_tick(61 * SEC));
    assert!(!app.timer_tick(600 * SEC));
}

#[test]
fn no_notification_off_the_countdown_screen() {
    let mut app = App::new("k".to_string(), None, 0);
    assert!(!app.timer_tick(600 * SEC));
}

#[test]
fn digits_blink_after_zero() {
    let mut app = App::new("k".to_string(), None, 0);
    assert!(app.timer_visible(10));
    app.timer.zero_at = Some(SEC);
    assert!(app.timer_visible(SEC + 499_999_999));
    assert!(!app.timer_visible(SEC + 500_000_000));
    assert!(app.timer_visible(SEC + 1_000_000_000));
}

#[test]
fn minutes_parse() {
    assert_eq!(parse_minutes("5"), Ok(5));
    assert_eq!(parse_minutes("5mn"), Ok(5));
    assert_eq!(parse_minutes("  12 minutes "), Ok(12));
    assert_eq!(parse_minutes("\u{3000}7"), Ok(7));
    assert_eq!(parse_minutes("0"), Ok(0));
    assert_eq!(parse_minutes("18446744073709551615"), Ok(u64::MAX));
}

#[test]
fn minutes_reject() {
    assert_eq!(parse_minutes(""), Err(()));
    assert_eq!(parse_minutes("   "), Err(()));
    assert_eq!(parse_minutes("mn5"), Err(()));
    assert_eq!(parse_minutes("+5"), Err(()));
    assert_eq!(parse_minutes("18446744073709551616"), Err(()));
}

#[test]
fn minutes_read_back_as_printed() {
    for n in [0u64, 7, 10, 99, 1234, u64::MAX] {
        assert_eq!(parse_minutes(&n.to_string()), Ok(n));
    }
}

#[test]
fn typing_moves_cursor_and_marks_edit() {
    let mut app = App::new("k".to_string(), None, 0);
    for (i, c) in "Gre".chars().enumerate() {
        assert!(matches!(handle_station_keys(&mut app, KeyCode::Char(c), i as u128 + 1), KeyAction::Nothing));
    }
    assert_eq!(app.input.text, "Gre");
    assert_eq!(app.input.cursor, 3);
    assert_eq!(app.input.last_edit_at, 3);
    handle_station_keys(&mut app, KeyCode::Left, 10);
    handle_station_keys(&mut app, KeyCode::Left, 10);
    handle_station_keys(&mut app, KeyCode::Char('x'), 11);
    assert_eq!(app.input.text, "Gxre");
    assert_eq!(app.input.cursor, 2);
    handle_station_keys(&mut app, KeyCode::Backspace, 12);
    assert_eq!(app.input.text, "Gre");
    assert_eq!(app.input.cursor, 1);
    assert_eq!(app.input.last_edit_at, 12);
    handle_station_keys(&mut app, KeyCode::Right, 13);
    handle_station_keys(&mut app, KeyCode::Right, 13);
    handle_station_keys(&mut app, KeyCode::Right, 13);
    assert_eq!(app.input.cursor, 3);
    assert_eq!(app.input.last_edit_at, 12);
}

#[test]
fn quit_keys_on_station_screen() {
    let mut app = App::new("k".to_string(), None, 0);
    assert!(matches!(handle_station_keys(&mut app, KeyCode::Char('q'), 1), KeyAction::Exit));
    assert!(matches!(handle_station_keys(&mut app, KeyCode::Esc, 1), KeyAction::Exit));
    assert!(app.input.text.is_empty());
}

#[test]
fn enter_picks_suggestion_and_moves_on() {
    let mut app = App::new("k".to_string(), None, 0);
    app.input.text = "Gr".to_string();
    app.input.cursor = 2;
    app.input.suggestions = vec![station("1", "Grenoble"), station("2", "Gresy")];
    handle_station_keys(&mut app, KeyCode::Down, 1);
    handle_station_keys(&mut app, KeyCode::Down, 1);
    assert_eq!(app.input.selected, 1);
    handle_station_keys(&mut app, KeyCode::Up, 1);
    handle_station_keys(&mut app, KeyCode::Up, 1);
    assert_eq!(app.input.selected, 0);
    handle_station_keys(&mut app, KeyCode::Down, 1);
    handle_station_keys(&mut app, KeyCode::Enter, 1);
    assert_eq!(app.mode, Mode::InputDest);
    assert_eq!(app.chosen_start.as_ref().unwrap().name, "Gresy");
    assert!(app.input.text.is_empty() && app.input.suggestions.is_empty());
    handle_station_keys(&mut app, KeyCode::Enter, 1);
    assert_eq!(app.mode, Mode::InputDest);
    app.input.suggestions = vec![station("3", "Lyon")];
    handle_station_keys(&mut app, KeyCode::Enter, 1);
    assert_eq!(app.mode, Mode::InputDuration);
    assert_eq!(app.chosen_dest.as_ref().unwrap().id, "3");
}

#[test]
fn duration_enter_saves_config_and_starts_countdown() {
    let mut app = App::new("k".to_string(), None, 0);
    app.mode = Mode::InputDuration;
    app.chosen_start = Some(station("1", "Grenoble"));
    app.chosen_dest = Some(station("3", "Lyon"));
    for c in "7mn".chars() {
        handle_duration_keys(&mut app, KeyCode::Char(c), 100);
    }
    assert_eq!(app.input.last_edit_at, 0);
    match handle_duration_keys(&mut app, KeyCode::Enter, 500) {
        KeyAction::Save(conf) => {
            assert_eq!(conf.start.name, "Grenoble");
            assert_eq!(conf.destination.id, "3");
            assert_eq!(conf.approach_minutes, 7);
        },
        _ => panic!("expected a configuration to save"),
    }
    assert_eq!(app.mode, Mode::Timer);
    assert_eq!(app.timer.duration, 420 * SEC);
    assert_eq!(app.timer.start, 500);
    assert_eq!(app.config.as_ref().unwrap().approach_minutes, 7);
    assert_eq!(app.approach_minutes, Some(7));
}

#[test]
fn duration_enter_without_stations_still_starts_countdown() {
    let mut app = App::new("k".to_string(), None, 0);
    app.mode = Mode::InputDuration;
    app.input.text = "2".to_string();
    assert!(matches!(handle_duration_keys(&mut app, KeyCode::Enter, 9), KeyAction::Nothing));
    assert_eq!(app.mode, Mode::Timer);
    assert!(app.config.is_none());
    assert_eq!(app.timer.duration, 120 * SEC);
}

#[test]
fn duration_enter_rejects_zero_and_words() {
    let mut app = App::new("k".to_string(), None, 0);
    app.mode = Mode::InputDuration;
    app.input.text = "0".to_string();
    handle_duration_keys(&mut app, KeyCode::Enter, 9);
    assert_eq!(app.mode, Mode::InputDuration);
    assert_eq!(app.input.error.as_deref(), Some("Please enter minutes, e.g., 5 or 5mn"));
    app.input.text = "soon".to_string();
    app.input.error = None;
    handle_duration_keys(&mut app, KeyCode::Enter, 9);
    assert_eq!(app.input.error.as_deref(), Some("Please enter minutes, e.g., 5 or 5mn"));
}

#[test]
fn timer_keys() {
    let mut app = App::new("k".to_string(), Some(config(1)), 0);
    app.journeys = vec![row(1), row(2), row(3)];
    assert!(matches!(handle_timer_keys(&mut app, key(KeyCode::Char('q'))), KeyAction::Quit));
    assert!(matches!(handle_timer_keys(&mut app, key(KeyCode::Esc)), KeyAction::Quit));
    assert!(matches!(handle_timer_keys(&mut app, KeyEvent { code: KeyCode::Char('c'), ctrl: true }), KeyAction::Quit));
    assert!(matches!(handle_timer_keys(&mut app, key(KeyCode::Char('c'))), KeyAction::Nothing));
    assert!(matches!(handle_timer_keys(&mut app, key(KeyCode::Char('r'))), KeyAction::Refresh));
    assert!(matches!(handle_timer_keys(&mut app, key(KeyCode::Up)), KeyAction::Nothing));
    assert!(matches!(handle_timer_keys(&mut app, key(KeyCode::Down)), KeyAction::Countdown));
    assert!(matches!(handle_timer_keys(&mut app, key(KeyCode::Down)), KeyAction::Countdown));
    assert!(matches!(handle_timer_keys(&mut app, key(KeyCode::Down)), KeyAction::Nothing));
    assert_eq!(app.journeys_selected, 2);
    assert!(matches!(handle_timer_keys(&mut app, key(KeyCode::Up)), KeyAction::Countdown));
    assert_eq!(app.journeys_selected, 1);
    assert!(matches!(handle_timer_keys(&mut app, key(KeyCode::Enter)), KeyAction::Countdown));
}

#[test]
fn keys_dispatch_by_screen() {
    let mut app = App::new("k".to_string(), None, 0);
    assert!(matches!(handle_keys(&mut app, key(KeyCode::Char('a')), 5), KeyAction::Nothing));
    assert_eq!(app.input.text, "a");
    app.mode = Mode::Timer;
    assert!(matches!(handle_keys(&mut app, key(KeyCode::Char('q')), 5), KeyAction::Quit));
    app.mode = Mode::InputDuration;
    assert!(matches!(handle_keys(&mut app, key(KeyCode::Esc), 5), KeyAction::Exit));
}

#[test]
fn non_ascii_input_and_unsafe_keys() {
    let mut app = App::new("k".to_string(), None, 0);
    handle_station_keys(&mut app, KeyCode::Char('é'), 1);
    assert_eq!(app.input.text, "é");
    assert_eq!(app.input.cursor, 1);
    // the cursor now sits inside 'é': another char would panic
    assert!(!key_is_safe(&app, key(KeyCode::Char('a'))));
    assert!(key_is_safe(&app, key(KeyCode::Backspace)));
    assert!(key_is_safe(&app, key(KeyCode::Char('q'))));
    handle_station_keys(&mut app, KeyCode::Backspace, 2);
    assert_eq!(app.input.text, "");
    assert_eq!(app.input.cursor, 0);
}

#[test]
fn huge_minutes_are_unsafe() {
    let mut app = App::new("k".to_string(), None, 0);
    app.mode = Mode::InputDuration;
    app.input.text = "18446744073709551615".to_string();
    assert!(!key_is_safe(&app, key(KeyCode::Enter)));
    app.input.text = "5".to_string();
    assert!(key_is_safe(&app, key(KeyCode::Enter)));
}

#[test]
fn cells_of_a_journey() {
    let z1 = ZonedTime {
        civil: CivilDateTime { year: 2024, month: 6, day: 19, hour: 8, minute: 5, second: 0 },
        offset_seconds: 7200,
        epoch_seconds: 1_718_777_100,
    };
    let z2 = ZonedTime {
        civil: CivilDateTime { year: 2024, month: 6, day: 19, hour: 9, minute: 40, second: 30 },
        offset_seconds: 7200,
        epoch_seconds: 1_718_782_830,
    };
    let r = journey_row(z1, z2, Some(-1));
    assert_eq!(
        journey_cells(&r),
        vec!["2024-06-19".to_string(), "08:05".to_string(), "09:40".to_string(), "95m".to_string(), "-1".to_string()]
    );
    let back = journey_row(z2, z1, None);
    assert_eq!(journey_cells(&back)[3], "0m");
}

#[test]
fn header_of_config() {
    assert_eq!(config_header(&config(12)), "Grenoble → Lyon Part-Dieu • approach 12 min");
}

#[test]
fn selection_clamped_to_list() {
    assert_eq!(clamp_selection(0, 0), None);
    assert_eq!(clamp_selection(3, 2), Some(1));
    assert_eq!(clamp_selection(1, 5), Some(1));
}

#[test]
fn text_split_at_cursor() {
    let mut app = App::new("k".to_string(), None, 0);
    app.input.text = "Lyon".to_string();
    app.input.cursor = 2;
    assert_eq!(input_halves(&app.input), ("Ly".to_string(), "on".to_string()));
    app.input.cursor = 9;
    assert_eq!(input_halves(&app.input), ("Lyon".to_string(), "".to_string()));
}

#[test]
fn control_c_quits_on_every_screen() {
    let ctrl_c = KeyEvent { code: KeyCode::Char('c'), ctrl: true };
    let mut app = App::new("k".to_string(), None, 0);
    app.input.text = "Gr".to_string();
    app.input.cursor = 2;
    assert!(key_is_safe(&app, ctrl_c));
    assert!(matches!(handle_keys(&mut app, ctrl_c, 5), KeyAction::Exit));
    assert_eq!(app.input.text, "Gr");
    assert_eq!(app.input.cursor, 2);
    app.mode = Mode::InputDest;
    assert!(matches!(handle_keys(&mut app, ctrl_c, 5), KeyAction::Exit));
    app.mode = Mode::InputDuration;
    assert!(matches!(handle_keys(&mut app, ctrl_c, 5), KeyAction::Exit));
    assert_eq!(app.input.text, "Gr");
    // without Control, `c` is typed
    assert!(matches!(handle_keys(&mut app, key(KeyCode::Char('c')), 5), KeyAction::Nothing));
    assert_eq!(app.input.text, "Grc");
    app.mode = Mode::Timer;
    assert!(matches!(handle_keys(&mut app, ctrl_c, 5), KeyAction::Quit));
}

#[test]
fn approach_time_enter_asks_to_save_through_handle_keys() {
    let mut app = App::new("k".to_string(), None, 0);
    app.chosen_start = Some(station("stop_area:A", "Grenoble"));
    app.chosen_dest = Some(station("stop_area:B", "Lyon Part-Dieu"));
    app.mode = Mode::InputDuration;
    app.input.text = "5mn".to_string();
    app.input.cursor = 3;
    match handle_keys(&mut app, key(KeyCode::Enter), 11) {
        KeyAction::Save(conf) => {
            assert_eq!(conf.start.id, "stop_area:A");
            assert_eq!(conf.destination.name, "Lyon Part-Dieu");
            assert_eq!(conf.approach_minutes, 5);
        },
        _ => panic!("expected a save"),
    }
    assert_eq!(app.mode, Mode::Timer);
    assert_eq!(app.timer.duration, 300 * SEC);
    app.mode = Mode::InputDuration;
    assert!(matches!(handle_keys(&mut app, key(KeyCode::Char('q')), 12), KeyAction::Exit));
}

#[test]
fn countdown_with_no_journeys_changes_nothing_whatever_the_approach() {
    let mut app = App::new("k".to_string(), Some(config(5)), 0);
    app.config = Some(config(u64::MAX));
    app.update_timer_from_selection(i64::MAX, 42);
    assert_eq!(app.timer.duration, 300 * SEC);
    assert_eq!(app.timer.start, 0);
    assert_eq!(app.config.as_ref().unwrap().approach_minutes, u64::MAX);
}

#[test]
fn nothing_changes_when_no_work_is_due() {
    let mut app = App::new("key".to_string(), None, 0);
    app.chosen_start = Some(station("stop_area:A", "Grenoble"));
    app.approach_minutes = Some(4);
    app.journeys_error = Some("old".to_string());
    assert!(app.begin_refresh().is_none());
    assert_eq!(app.api_key, "key");
    assert_eq!(app.chosen_start.as_ref().unwrap().id, "stop_area:A");
    assert_eq!(app.approach_minutes, Some(4));
    assert_eq!(app.journeys_error.as_deref(), Some("old"));
    assert!(!app.journeys_loading);
    app.input.text = "G".to_string();
    assert_eq!(app.suggestion_query(SEC), None);
    assert_eq!(app.api_key, "key");
    assert_eq!(app.approach_minutes, Some(4));
    assert_eq!(app.journeys_error.as_deref(), Some("old"));
    assert!(!app.input.loading);
}

#[test]
fn journeys_panel_choice() {
    assert!(matches!(journeys_panel(true, &Some("HTTP 500".to_string())), JourneysPanel::Loading));
    match journeys_panel(false, &Some("HTTP 500".to_string())) {
        JourneysPanel::Error(m) => assert_eq!(m, "Error: HTTP 500"),
        _ => panic!("expected the error"),
    }
    assert!(matches!(journeys_panel(false, &None), JourneysPanel::Table));
}

#[test]
fn centred_box_margins() {
    assert_eq!(side_margin(80), 10);
    assert_eq!(side_margin(70), 15);
    assert_eq!(side_margin(100), 0);
    assert_eq!(side_margin(0), 50);
}

#[test]
fn event_loop_duty_by_screen() {
    let mut app = App::new("k".to_string(), None, 0);
    assert_eq!(app.tick_duty(), TickDuty::Suggestions);
    app.mode = Mode::InputDest;
    assert_eq!(app.tick_duty(), TickDuty::Suggestions);
    app.mode = Mode::InputDuration;
    assert_eq!(app.tick_duty(), TickDuty::Nothing);
    app.mode = Mode::Timer;
    assert_eq!(app.tick_duty(), TickDuty::Countdown);
}

#[test]
fn countdown_text_drops_the_part_of_a_second() {
    assert_eq!(countdown_text(59_999_000_000), "00:00:59");
    assert_eq!(countdown_text(1_999_999_999), "00:00:01");
    assert_eq!(countdown_text(999_999_999), "00:00:00");
    assert_eq!(countdown_text(3_723 * SEC + 500_000_000), "01:02:03");
}

#[test]
fn step_functions_leave_the_other_fields_alone() {
    let mut app = App::new("key".to_string(), Some(config(1)), 0);
    app.journeys_error = Some("old".to_string());
    assert!(app.timer_tick(60 * SEC));
    assert!(app.timer.notified);
    assert_eq!(app.api_key, "key");
    assert_eq!(app.chosen_start.as_ref().unwrap().id, "stop_area:A");
    assert_eq!(app.approach_minutes, Some(1));
    assert_eq!(app.journeys_error.as_deref(), Some("old"));
    assert!(!app.journeys_loading);
    app.finish_refresh(Ok(vec![row(1)]));
    assert_eq!(app.chosen_dest.as_ref().unwrap().id, "stop_area:B");
    assert_eq!(app.approach_minutes, Some(1));
    assert_eq!(app.journeys_error.as_deref(), Some("old"));
    app.apply_suggestions("Gr".to_string(), Err("HTTP 503".to_string()));
    assert_eq!(app.journeys.len(), 1);
    assert_eq!(app.journeys_error.as_deref(), Some("old"));
    assert_eq!(app.chosen_start.as_ref().unwrap().name, "Grenoble");
    assert!(app.timer.notified);
}
