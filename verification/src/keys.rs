//! Keys: what each key does to the application state on each screen, and
//! the reading of the typed approach time.

use vstd::prelude::*;
use vstd::string::StrSliceExecFns;
use vstd::utf8::is_char_boundary;
use crate::api::Place;
use crate::state::{App, AppConfig, Mode, SavedPlace, TimerState, NANOS_PER_SEC};
use crate::text::{
    decimal,
    byte_len, bytes_with_char_at, bytes_without_char_at, char_width_at, lemma_char_width,
    remove_char_at, string_insert, text_bytes,
};

verus! {

// ---------------------------------------------------------------------------
// Reading the approach time
// ---------------------------------------------------------------------------

/// Unicode's White_Space property, which `str::trim` removes.
pub open spec fn is_white_space(c: char) -> bool {
    ('\u{9}' <= c <= '\u{d}') || c == ' ' || c == '\u{85}' || c == '\u{a0}' || c == '\u{1680}'
        || ('\u{2000}' <= c <= '\u{200a}') || c == '\u{2028}' || c == '\u{2029}' || c
        == '\u{202f}' || c == '\u{205f}' || c == '\u{3000}'
}

pub open spec fn is_ascii_digit(c: char) -> bool {
    '0' <= c <= '9'
}

/// The number of white-space chars at the start of `s`.
pub open spec fn leading_white_space(s: Seq<char>) -> nat
    decreases s.len(),
{
    if s.len() > 0 && is_white_space(s[0]) {
        1 + leading_white_space(s.drop_first())
    } else {
        0
    }
}

/// The number of ASCII digits in a row in `s` from index `from` on.
pub open spec fn digit_run(s: Seq<char>, from: int) -> nat
    decreases s.len() - from,
{
    if 0 <= from < s.len() && is_ascii_digit(s[from]) {
        1 + digit_run(s, from + 1)
    } else {
        0
    }
}

/// The number that the ASCII digits `d` write.
pub open spec fn chars_value(d: Seq<char>) -> nat
    decreases d.len(),
{
    if d.len() == 0 {
        0
    } else {
        chars_value(d.drop_last()) * 10 + (d.last() as nat - 48) as nat
    }
}

/// The minutes read from the typed text: past the leading white space, the
/// ASCII digits in a row (at least one), as a `u64`. Anything after them is
/// ignored ("5mn" reads as 5).
pub open spec fn parse_minutes_spec(s: Seq<char>) -> Option<nat> {
    let t = leading_white_space(s) as int;
    let n = digit_run(s, t) as int;
    if n == 0 {
        None
    } else if chars_value(s.subrange(t, t + n)) <= u64::MAX {
        Some(chars_value(s.subrange(t, t + n)))
    } else {
        None
    }
}

fn is_white_space_exec(c: char) -> (r: bool)
    ensures
        r == is_white_space(c),
{
    ('\u{9}' <= c && c <= '\u{d}') || c == ' ' || c == '\u{85}' || c == '\u{a0}' || c
        == '\u{1680}' || ('\u{2000}' <= c && c <= '\u{200a}') || c == '\u{2028}' || c
        == '\u{2029}' || c == '\u{202f}' || c == '\u{205f}' || c == '\u{3000}'
}

proof fn lemma_leading_white_space(s: Seq<char>, i: int)
    requires
        0 <= i <= s.len(),
        forall|k: int| 0 <= k < i ==> is_white_space(#[trigger] s[k]),
    ensures
        leading_white_space(s) == i + leading_white_space(s.subrange(i, s.len() as int)),
    decreases i,
{
    if i > 0 {
        let t = s.drop_first();
        assert forall|k: int| 0 <= k < i - 1 implies is_white_space(#[trigger] t[k]) by {
            assert(t[k] == s[k + 1]);
        }
        lemma_leading_white_space(t, i - 1);
        assert(t.subrange(i - 1, t.len() as int) =~= s.subrange(i, s.len() as int));
    } else {
        assert(s.subrange(0, s.len() as int) =~= s);
    }
}

proof fn lemma_digit_run(s: Seq<char>, from: int, i: int)
    requires
        0 <= from <= i <= s.len(),
        forall|k: int| from <= k < i ==> is_ascii_digit(#[trigger] s[k]),
    ensures
        digit_run(s, from) == (i - from) + digit_run(s, i),
    decreases i - from,
{
    if from < i {
        lemma_digit_run(s, from + 1, i);
    }
}

proof fn lemma_digit_run_digits(s: Seq<char>, from: int, k: int)
    requires
        0 <= from,
        0 <= k < digit_run(s, from),
    ensures
        from + k < s.len(),
        is_ascii_digit(s[from + k]),
        from + digit_run(s, from) <= s.len(),
    decreases s.len() - from,
{
    if k > 0 {
        lemma_digit_run_digits(s, from + 1, k - 1);
    } else {
        if digit_run(s, from + 1) > 0 {
            lemma_digit_run_digits(s, from + 1, 0);
        }
    }
}

proof fn lemma_chars_value_grows(d: Seq<char>, i: int, j: int)
    requires
        0 <= i <= j <= d.len(),
        forall|k: int| 0 <= k < d.len() ==> is_ascii_digit(#[trigger] d[k]),
    ensures
        chars_value(d.subrange(0, i)) <= chars_value(d.subrange(0, j)),
    decreases j - i,
{
    if i < j {
        lemma_chars_value_grows(d, i, j - 1);
        assert(d.subrange(0, j).drop_last() =~= d.subrange(0, j - 1));
        assert(is_ascii_digit(d[j - 1]));
    }
}

proof fn lemma_digit_char_value(v: int)
    requires
        0 <= v <= 9,
    ensures
        crate::civil::digit_char(v) as nat == 48 + v,
        is_ascii_digit(crate::civil::digit_char(v)),
{
}

proof fn lemma_decimal_digits(n: nat)
    ensures
        decimal(n).len() >= 1,
        forall|k: int| 0 <= k < decimal(n).len() ==> is_ascii_digit(#[trigger] decimal(n)[k]),
        chars_value(decimal(n)) == n,
    decreases n,
{
    if n >= 10 {
        lemma_decimal_digits(n / 10);
        lemma_digit_char_value((n % 10) as int);
        let d = decimal(n);
        assert(d.drop_last() =~= decimal(n / 10));
        assert(d.last() == crate::civil::digit_char((n % 10) as int));
        assert((n / 10) * 10 + n % 10 == n) by (nonlinear_arith);
        assert(chars_value(d) == chars_value(d.drop_last()) * 10 + (d.last() as nat - 48) as nat);
        assert forall|k: int| 0 <= k < d.len() implies is_ascii_digit(#[trigger] d[k]) by {
            if k < d.len() - 1 {
                assert(d[k] == decimal(n / 10)[k]);
            }
        }
    } else {
        lemma_digit_char_value(n as int);
        assert(decimal(n).drop_last() =~= Seq::<char>::empty());
        assert(chars_value(decimal(n).drop_last()) == 0);
    }
}

/// Law: the approach time reads back as printed. For every `u64` count of
/// minutes `n`, the text of `n` in decimal reads as `n`.
pub proof fn law_minutes_read_back(n: u64)
    ensures
        parse_minutes_spec(decimal(n as nat)) == Some(n as nat),
{
    let d = decimal(n as nat);
    lemma_decimal_digits(n as nat);
    assert(!is_white_space(d[0]));
    assert(leading_white_space(d) == 0);
    lemma_digit_run(d, 0, d.len() as int);
    assert(digit_run(d, d.len() as int) == 0);
    assert(d.subrange(0, d.len() as int) =~= d);
}

/// Reads the approach time in minutes from the typed text: leading white
/// space skipped, then the ASCII digits in a row (at least one) read as a
/// `u64`. `Err(())` when no digit comes first or the number overflows.
pub fn parse_minutes(s: &str) -> (r: Result<u64, ()>)
    ensures
        match r {
            Ok(m) => parse_minutes_spec(s@) == Some(m as nat),
            Err(_) => parse_minutes_spec(s@) is None,
        },
{
    let n = s.unicode_len();
    let mut i: usize = 0;
    while i < n && is_white_space_exec(s.get_char(i))
        invariant
            n == s@.len(),
            i <= n,
            forall|k: int| 0 <= k < i ==> is_white_space(#[trigger] s@[k]),
        decreases n - i,
    {
        i = i + 1;
    }
    proof {
        lemma_leading_white_space(s@, i as int);
        if i < n {
            assert(s@.subrange(i as int, n as int)[0] == s@[i as int]);
        }
        assert(leading_white_space(s@.subrange(i as int, n as int)) == 0);
    }
    let start = i;
    let mut value: u64 = 0;
    while i < n && '0' <= s.get_char(i) && s.get_char(i) <= '9'
        invariant
            n == s@.len(),
            start <= i <= n,
            start == leading_white_space(s@),
            forall|k: int| start <= k < i ==> is_ascii_digit(#[trigger] s@[k]),
            value == chars_value(s@.subrange(start as int, i as int)),
        decreases n - i,
    {
        let d = s.get_char(i) as u64 - 48;
        assert(s@.subrange(start as int, i + 1).drop_last() =~= s@.subrange(
            start as int,
            i as int,
        ));
        proof {
            lemma_digit_run(s@, start as int, i as int);
        }
        let next = match value.checked_mul(10) {
            Some(v) => v.checked_add(d),
            None => None,
        };
        match next {
            Some(v) => {
                value = v;
            },
            None => {
                proof {
                    let t = start as int;
                    let run = digit_run(s@, t) as int;
                    lemma_digit_run(s@, t, i + 1);
                    lemma_digit_run_digits(s@, t, 0);
                    let all = s@.subrange(t, t + run);
                    assert forall|k: int| 0 <= k < all.len() implies is_ascii_digit(
                        #[trigger] all[k],
                    ) by {
                        lemma_digit_run_digits(s@, t, k);
                        assert(all[k] == s@[t + k]);
                    }
                    lemma_chars_value_grows(all, i + 1 - t, run);
                    assert(all.subrange(0, i + 1 - t) =~= s@.subrange(t, i + 1));
                    assert(all.subrange(0, run) =~= all);
                }
                return Err(());
            },
        }
        i = i + 1;
    }
    proof {
        lemma_digit_run(s@, start as int, i as int);
        if i < n {
            assert(!is_ascii_digit(s@[i as int]));
        }
        assert(digit_run(s@, i as int) == 0);
    }
    if i == start {
        Err(())
    } else {
        Ok(value)
    }
}


// ---------------------------------------------------------------------------
// Keys
// ---------------------------------------------------------------------------

/// A key as the screens read it.
#[derive(Clone, Copy, Debug, PartialEq, Eq, Structural)]
pub enum KeyCode {
    Char(char),
    Enter,
    Backspace,
    Left,
    Right,
    Up,
    Down,
    Esc,
    Other,
}

/// A key press, with whether Control was held.
#[derive(Clone, Copy, Debug, PartialEq, Eq, Structural)]
pub struct KeyEvent {
    pub code: KeyCode,
    pub ctrl: bool,
}

/// What the caller has to do after a key.
#[derive(Debug)]
pub enum KeyAction {
    /// Nothing more.
    Nothing,
    /// End the process at once (the input screens' quit keys).
    Exit,
    /// Leave the event loop (the countdown screen's quit keys).
    Quit,
    /// Fetch the journeys again.
    Refresh,
    /// Restart the countdown from the selected journey.
    Countdown,
    /// Write this configuration to disk.
    Save(AppConfig),
}

/// The keys that end the process on the input screens.
pub open spec fn is_exit_key(code: KeyCode) -> bool {
    code == KeyCode::Char('q') || code == KeyCode::Esc
}

/// Everything but the text field is unchanged.
pub open spec fn same_outside_input(a: App, b: App) -> bool {
    &&& b.mode == a.mode
    &&& b.timer == a.timer
    &&& b.api_key == a.api_key
    &&& b.chosen_start == a.chosen_start
    &&& b.chosen_dest == a.chosen_dest
    &&& b.approach_minutes == a.approach_minutes
    &&& b.config == a.config
    &&& b.journeys == a.journeys
    &&& b.journeys_selected == a.journeys_selected
    &&& b.journeys_loading == a.journeys_loading
    &&& b.journeys_error == a.journeys_error
}

/// Everything is unchanged but the text and the cursor (and, when `touch`,
/// the instant of the last edit, set to `now`).
pub open spec fn only_text_changed(a: App, b: App, touch: bool, now: u128) -> bool {
    &&& same_outside_input(a, b)
    &&& b.input.suggestions == a.input.suggestions
    &&& b.input.selected == a.input.selected
    &&& b.input.last_queried == a.input.last_queried
    &&& b.input.loading == a.input.loading
    &&& b.input.error == a.input.error
    &&& b.input.last_edit_at == (if touch {
        now
    } else {
        a.input.last_edit_at
    })
}

/// What the editing keys do to the text field: Backspace takes out the char
/// that starts one byte before the cursor and moves the cursor back one
/// byte; Left and Right move the cursor one byte within the text; a char is
/// put in at the cursor, which moves one byte on. Backspace and chars count
/// as edits (`touch`).
pub open spec fn edit_effect(a: App, b: App, code: KeyCode, touch: bool, now: u128) -> bool {
    let bytes = text_bytes(a.input.text@);
    let cur = a.input.cursor as int;
    match code {
        KeyCode::Backspace => if 0 < cur <= bytes.len() {
            &&& text_bytes(b.input.text@) == bytes_without_char_at(bytes, cur - 1)
            &&& b.input.cursor == cur - 1
            &&& only_text_changed(a, b, touch, now)
        } else {
            b == a
        },
        KeyCode::Left => if cur > 0 {
            &&& b.input.text == a.input.text
            &&& b.input.cursor == cur - 1
            &&& only_text_changed(a, b, false, now)
        } else {
            b == a
        },
        KeyCode::Right => if cur < bytes.len() {
            &&& b.input.text == a.input.text
            &&& b.input.cursor == cur + 1
            &&& only_text_changed(a, b, false, now)
        } else {
            b == a
        },
        KeyCode::Char(c) => {
            &&& text_bytes(b.input.text@) == bytes_with_char_at(bytes, cur, c)
            &&& b.input.cursor == cur + 1
            &&& only_text_changed(a, b, touch, now)
        },
        _ => b == a,
    }
}

/// The text field emptied, as `App::reset_input` leaves it.
pub open spec fn input_reset(a: App, b: App) -> bool {
    &&& b.input.text@.len() == 0
    &&& b.input.cursor == 0
    &&& b.input.suggestions@.len() == 0
    &&& b.input.selected == 0
    &&& b.input.last_queried@.len() == 0
    &&& b.input.error is None
    &&& b.input.loading == a.input.loading
    &&& b.input.last_edit_at == a.input.last_edit_at
}

/// What a key does on the station screens.
pub open spec fn station_key_effect(a: App, b: App, code: KeyCode, now: u128) -> bool {
    if is_exit_key(code) {
        b == a
    } else {
        match code {
            KeyCode::Enter => {
                if a.input.selected < a.input.suggestions@.len() && a.mode == Mode::InputStart {
                    &&& b.chosen_start == Some(a.input.suggestions@[a.input.selected as int])
                    &&& b.mode == Mode::InputDest
                    &&& input_reset(a, b)
                    &&& same_outside_input(a, App { mode: a.mode, chosen_start: a.chosen_start, ..b })
                } else if a.input.selected < a.input.suggestions@.len() && a.mode == Mode::InputDest {
                    &&& b.chosen_dest == Some(a.input.suggestions@[a.input.selected as int])
                    &&& b.mode == Mode::InputDuration
                    &&& input_reset(a, b)
                    &&& same_outside_input(a, App { mode: a.mode, chosen_dest: a.chosen_dest, ..b })
                } else {
                    b == a
                }
            },
            KeyCode::Up => if a.input.selected > 0 {
                &&& b.input.selected == a.input.selected - 1
                &&& b == (App { input: b.input, ..a })
                &&& b.input == (crate::state::InputState { selected: b.input.selected, ..a.input })
            } else {
                b == a
            },
            KeyCode::Down => if a.input.selected + 1 < a.input.suggestions@.len() {
                &&& b.input.selected == a.input.selected + 1
                &&& b == (App { input: b.input, ..a })
                &&& b.input == (crate::state::InputState { selected: b.input.selected, ..a.input })
            } else {
                b == a
            },
            _ => edit_effect(a, b, code, true, now),
        }
    }
}


/// What a key does on the approach-time screen. Enter with a positive
/// number of minutes saves the configuration (when both stations are
/// chosen) and starts the countdown for that many minutes; otherwise it
/// shows the hint as the error.
pub open spec fn duration_key_effect(a: App, b: App, code: KeyCode, now: u128) -> bool {
    if is_exit_key(code) {
        b == a
    } else {
        match code {
            KeyCode::Enter => match parse_minutes_spec(a.input.text@) {
                Some(m) if m > 0 => {
                    &&& b.approach_minutes == Some(m as u64)
                    &&& b.mode == Mode::Timer
                    &&& b.timer == (TimerState {
                        start: now,
                        duration: (m * 60 * NANOS_PER_SEC) as u128,
                        notified: false,
                        zero_at: None,
                    })
                    &&& b.config == (match (a.chosen_start, a.chosen_dest) {
                        (Some(s), Some(d)) => Some(config_of(s, d, m as u64)),
                        _ => a.config,
                    })
                    &&& b == (App {
                        approach_minutes: b.approach_minutes,
                        mode: b.mode,
                        timer: b.timer,
                        config: b.config,
                        ..a
                    })
                },
                _ => {
                    &&& b.input.error matches Some(e) && e@ == "Please enter minutes, e.g., 5 or 5mn"@
                    &&& b == (App { input: b.input, ..a })
                    &&& b.input == (crate::state::InputState { error: b.input.error, ..a.input })
                },
            },
            KeyCode::Up | KeyCode::Down => b == a,
            _ => edit_effect(a, b, code, false, now),
        }
    }
}

/// What the approach-time screen asks of the caller: to end the process
/// on `q` and Esc, to write the configuration when Enter saves one.
pub open spec fn duration_key_action(a: App, code: KeyCode) -> KeyAction {
    if is_exit_key(code) {
        KeyAction::Exit
    } else if code == KeyCode::Enter {
        match (parse_minutes_spec(a.input.text@), a.chosen_start, a.chosen_dest) {
            (Some(m), Some(s), Some(d)) => if m > 0 {
                KeyAction::Save(config_of(s, d, m as u64))
            } else {
                KeyAction::Nothing
            },
            _ => KeyAction::Nothing,
        }
    } else {
        KeyAction::Nothing
    }
}

/// The configuration saved from the two chosen places and the minutes.
pub open spec fn config_of(s: Place, d: Place, m: u64) -> AppConfig {
    AppConfig {
        start: SavedPlace { id: s.id, name: s.name },
        destination: SavedPlace { id: d.id, name: d.name },
        approach_minutes: m,
    }
}

/// Control-C, which quits on every screen.
pub open spec fn is_ctrl_c(key: KeyEvent) -> bool {
    key.code == KeyCode::Char('c') && key.ctrl
}

/// The countdown screen's quit keys: `q`, Esc, and Control-C.
pub open spec fn is_quit_key(key: KeyEvent) -> bool {
    key.code == KeyCode::Char('q') || key.code == KeyCode::Esc || is_ctrl_c(key)
}

/// What a key does on the countdown screen, and what it asks of the caller.
pub open spec fn timer_key_effect(a: App, b: App, key: KeyEvent, r: KeyAction) -> bool {
    if is_quit_key(key) {
        b == a && r == KeyAction::Quit
    } else {
        match key.code {
            KeyCode::Char('r') => b == a && r == KeyAction::Refresh,
            KeyCode::Up => if a.journeys_selected > 0 {
                &&& b == (App { journeys_selected: (a.journeys_selected - 1) as usize, ..a })
                &&& r == KeyAction::Countdown
            } else {
                b == a && r == KeyAction::Nothing
            },
            KeyCode::Down => if a.journeys_selected + 1 < a.journeys@.len() {
                &&& b == (App { journeys_selected: (a.journeys_selected + 1) as usize, ..a })
                &&& r == KeyAction::Countdown
            } else {
                b == a && r == KeyAction::Nothing
            },
            KeyCode::Enter => b == a && r == KeyAction::Countdown,
            _ => b == a && r == KeyAction::Nothing,
        }
    }
}

/// The editing keys that cannot panic: a char (other than `q`) goes in at a
/// char boundary; Backspace, when it removes something, removes a char that
/// starts on a boundary.
pub open spec fn edit_key_ok(a: App, code: KeyCode) -> bool {
    let bytes = text_bytes(a.input.text@);
    let cur = a.input.cursor as int;
    match code {
        KeyCode::Char(c) => c == 'q' || is_char_boundary(bytes, cur),
        KeyCode::Backspace => 0 < cur <= bytes.len() ==> is_char_boundary(bytes, cur - 1),
        _ => true,
    }
}

/// The keys that the current screen handles without a panic (a misplaced
/// cursor, a selection or a countdown that overflows). Control-C is always
/// handled.
pub open spec fn key_ok(a: App, key: KeyEvent) -> bool {
    match a.mode {
        Mode::InputStart | Mode::InputDest => {
            &&& !is_ctrl_c(key) ==> edit_key_ok(a, key.code)
            &&& key.code == KeyCode::Down ==> a.input.selected < usize::MAX
        },
        Mode::InputDuration => {
            &&& !is_ctrl_c(key) ==> edit_key_ok(a, key.code)
            &&& key.code == KeyCode::Enter ==> (parse_minutes_spec(a.input.text@) matches Some(m)
                ==> (m > 0 ==> m * 60 <= u64::MAX))
        },
        Mode::Timer => key.code == KeyCode::Down ==> a.journeys_selected < usize::MAX,
    }
}

/// Applies an editing key to the text field.
fn apply_edit(app: &mut App, code: KeyCode, touch: bool, now: u128)
    requires
        edit_key_ok(*old(app), code),
        !is_exit_key(code),
    ensures
        edit_effect(*old(app), *final(app), code, touch, now),
        old(app).inv() ==> final(app).inv(),
{
    let len = byte_len(&app.input.text);
    match code {
        KeyCode::Backspace => {
            if app.input.cursor > 0 && app.input.cursor <= len {
                remove_char_at(&mut app.input.text, app.input.cursor - 1);
                app.input.cursor = app.input.cursor - 1;
                if touch {
                    app.input.last_edit_at = now;
                }
            }
        },
        KeyCode::Left => {
            if app.input.cursor > 0 {
                app.input.cursor = app.input.cursor - 1;
            }
        },
        KeyCode::Right => {
            if app.input.cursor < len {
                app.input.cursor = app.input.cursor + 1;
            }
        },
        KeyCode::Char(c) => {
            proof {
                lemma_char_width(c);
                crate::text::lemma_boundary_in_range(app.input.text@, app.input.cursor as int);
            }
            string_insert(&mut app.input.text, app.input.cursor, c);
            app.input.cursor = app.input.cursor + 1;
            if touch {
                app.input.last_edit_at = now;
            }
        },
        _ => {},
    }
}

/// A key on the station screens: `q` and Esc end the process; Enter takes
/// the selected suggestion as the departure (then the arrival) station and
/// moves to the next screen; Up and Down move the selection; the other keys
/// edit the text.
pub fn handle_station_keys(app: &mut App, code: KeyCode, now: u128) -> (r: KeyAction)
    requires
        edit_key_ok(*old(app), code),
        code == KeyCode::Down ==> old(app).input.selected < usize::MAX,
    ensures
        station_key_effect(*old(app), *final(app), code, now),
        r == (if is_exit_key(code) {
            KeyAction::Exit
        } else {
            KeyAction::Nothing
        }),
        old(app).inv() ==> final(app).inv(),
{
    if code == KeyCode::Char('q') || code == KeyCode::Esc {
        return KeyAction::Exit;
    }
    match code {
        KeyCode::Enter => {
            if app.input.selected < app.input.suggestions.len() {
                let place = app.input.suggestions[app.input.selected].clone();
                match app.mode {
                    Mode::InputStart => {
                        app.chosen_start = Some(place);
                        app.reset_input();
                        app.mode = Mode::InputDest;
                    },
                    Mode::InputDest => {
                        app.chosen_dest = Some(place);
                        app.reset_input();
                        app.mode = Mode::InputDuration;
                    },
                    _ => {},
                }
            }
        },
        KeyCode::Up => {
            if app.input.selected > 0 {
                app.input.selected = app.input.selected - 1;
            }
        },
        KeyCode::Down => {
            if app.input.selected + 1 < app.input.suggestions.len() {
                app.input.selected = app.input.selected + 1;
            }
        },
        _ => apply_edit(app, code, true, now),
    }
    KeyAction::Nothing
}


/// A key on the approach-time screen: `q` and Esc end the process; Enter
/// reads the minutes and, when positive, saves the configuration (if both
/// stations are chosen; the caller writes it to disk) and starts the
/// countdown; Up and Down do nothing; the other keys edit the text.
pub fn handle_duration_keys(app: &mut App, code: KeyCode, now: u128) -> (r: KeyAction)
    requires
        edit_key_ok(*old(app), code),
        code == KeyCode::Enter ==> (parse_minutes_spec(old(app).input.text@) matches Some(m) ==> (
        m > 0 ==> m * 60 <= u64::MAX)),
    ensures
        duration_key_effect(*old(app), *final(app), code, now),
        r == duration_key_action(*old(app), code),
        old(app).inv() ==> final(app).inv(),
{
    if code == KeyCode::Char('q') || code == KeyCode::Esc {
        return KeyAction::Exit;
    }
    match code {
        KeyCode::Enter => {
            match parse_minutes(app.input.text.as_str()) {
                Ok(mins) if mins > 0 => {
                    app.approach_minutes = Some(mins);
                    let mut action = KeyAction::Nothing;
                    match (&app.chosen_start, &app.chosen_dest) {
                        (Some(start), Some(dest)) => {
                            let start = start.clone();
                            let dest = dest.clone();
                            let conf = AppConfig {
                                start: SavedPlace { id: start.id, name: start.name },
                                destination: SavedPlace { id: dest.id, name: dest.name },
                                approach_minutes: mins,
                            };
                            action = KeyAction::Save(conf.clone());
                            app.config = Some(conf);
                        },
                        _ => {},
                    }
                    app.timer.duration = (mins * 60) as u128 * NANOS_PER_SEC;
                    app.timer.start = now;
                    app.timer.notified = false;
                    app.timer.zero_at = None;
                    app.mode = Mode::Timer;
                    action
                },
                _ => {
                    app.input.error = Some("Please enter minutes, e.g., 5 or 5mn".to_owned());
                    KeyAction::Nothing
                },
            }
        },
        KeyCode::Up | KeyCode::Down => KeyAction::Nothing,
        _ => {
            apply_edit(app, code, false, now);
            KeyAction::Nothing
        },
    }
}

/// A key on the countdown screen: `q`, Esc and Control-C leave; `r` asks
/// for a refresh; Up and Down move the journey selection and ask for the
/// countdown to restart, as Enter does.
pub fn handle_timer_keys(app: &mut App, key: KeyEvent) -> (r: KeyAction)
    requires
        key.code == KeyCode::Down ==> old(app).journeys_selected < usize::MAX,
    ensures
        timer_key_effect(*old(app), *final(app), key, r),
        old(app).inv() ==> final(app).inv(),
{
    if key.code == KeyCode::Char('q') || key.code == KeyCode::Esc || (key.code == KeyCode::Char(
        'c',
    ) && key.ctrl) {
        return KeyAction::Quit;
    }
    match key.code {
        KeyCode::Char('r') => KeyAction::Refresh,
        KeyCode::Up => {
            if app.journeys_selected > 0 {
                app.journeys_selected = app.journeys_selected - 1;
                KeyAction::Countdown
            } else {
                KeyAction::Nothing
            }
        },
        KeyCode::Down => {
            if app.journeys_selected + 1 < app.journeys.len() {
                app.journeys_selected = app.journeys_selected + 1;
                KeyAction::Countdown
            } else {
                KeyAction::Nothing
            }
        },
        KeyCode::Enter => KeyAction::Countdown,
        _ => KeyAction::Nothing,
    }
}

/// A key, handled by the current screen. Control-C quits on every screen:
/// on the input screens it ends the process, as `q` and Esc do there.
pub fn handle_keys(app: &mut App, key: KeyEvent, now: u128) -> (r: KeyAction)
    requires
        key_ok(*old(app), key),
    ensures
        old(app).mode != Mode::Timer && is_ctrl_c(key) ==> *final(app) == *old(app) && r
            == KeyAction::Exit,
        (old(app).mode == Mode::InputStart || old(app).mode == Mode::InputDest) && !is_ctrl_c(key)
            ==> (station_key_effect(*old(app), *final(app), key.code, now) && r == (
        if is_exit_key(key.code) {
            KeyAction::Exit
        } else {
            KeyAction::Nothing
        })),
        old(app).mode == Mode::InputDuration && !is_ctrl_c(key) ==> duration_key_effect(
            *old(app),
            *final(app),
            key.code,
            now,
        ) && r == duration_key_action(*old(app), key.code),
        old(app).mode == Mode::Timer ==> timer_key_effect(*old(app), *final(app), key, r),
        old(app).inv() ==> final(app).inv(),
{
    if key.code == KeyCode::Char('c') && key.ctrl {
        match app.mode {
            Mode::Timer => {},
            _ => return KeyAction::Exit,
        }
    }
    match app.mode {
        Mode::InputStart | Mode::InputDest => handle_station_keys(app, key.code, now),
        Mode::InputDuration => handle_duration_keys(app, key.code, now),
        Mode::Timer => handle_timer_keys(app, key),
    }
}

/// Whether the current screen handles `key` without a panic.
pub fn key_is_safe(app: &App, key: KeyEvent) -> (r: bool)
    ensures
        r == key_ok(*app, key),
{
    let cur = app.input.cursor;
    let text = app.input.text.as_str();
    let edit_ok = match key.code {
        KeyCode::Char(c) => c == 'q' || text.is_char_boundary(cur),
        KeyCode::Backspace => !(0 < cur && cur <= byte_len(&app.input.text))
            || text.is_char_boundary(cur - 1),
        _ => true,
    };
    let edit_ok = edit_ok || (key.code == KeyCode::Char('c') && key.ctrl);
    match app.mode {
        Mode::InputStart | Mode::InputDest => edit_ok && (key.code != KeyCode::Down
            || app.input.selected < usize::MAX),
        Mode::InputDuration => edit_ok && (key.code != KeyCode::Enter || match parse_minutes(
            text,
        ) {
            Ok(m) => m == 0 || m <= u64::MAX / 60,
            Err(_) => true,
        }),
        Mode::Timer => key.code != KeyCode::Down || app.journeys_selected < usize::MAX,
    }
}

} // verus!
