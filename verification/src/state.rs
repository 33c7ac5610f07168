//! The application state: what the user is typing, the station
//! suggestions, the chosen stations, the saved configuration, the journeys
//! and the countdown, and the decisions taken on them.
//!
//! Instants are read on a monotonic clock supplied by the caller, in
//! nanoseconds; durations are in nanoseconds too.

use vstd::prelude::*;
use crate::api::{JourneyRow, Place};
use crate::civil::ZonedTime;
use crate::text::{byte_len, text_bytes};

verus! {

/// Waiting time after the last edit before the suggestions are fetched.
pub const SUGGESTION_DEBOUNCE_MS: u64 = 350;

/// Shortest query (in bytes) for which suggestions are fetched.
pub const MIN_QUERY_LEN: usize = 2;

/// The countdown's length when no configuration is saved.
pub const DEFAULT_TIMER_SECS: u64 = 30;

pub const NANOS_PER_SEC: u128 = 1_000_000_000;

pub const NANOS_PER_MILLI: u128 = 1_000_000;

/// A station as saved in the configuration.
#[derive(Debug)]
pub struct SavedPlace {
    pub id: String,
    pub name: String,
}

impl Clone for SavedPlace {
    fn clone(&self) -> (r: Self)
        ensures
            r == *self,
    {
        SavedPlace { id: self.id.clone(), name: self.name.clone() }
    }
}

/// The saved configuration: the two stations and the minutes needed to
/// reach the departure station.
#[derive(Debug)]
pub struct AppConfig {
    pub start: SavedPlace,
    pub destination: SavedPlace,
    pub approach_minutes: u64,
}

impl Clone for AppConfig {
    fn clone(&self) -> (r: Self)
        ensures
            r == *self,
    {
        AppConfig {
            start: self.start.clone(),
            destination: self.destination.clone(),
            approach_minutes: self.approach_minutes,
        }
    }
}

/// The work of a pass of the event loop besides drawing.
#[derive(Clone, Copy, Debug, PartialEq, Eq, Structural)]
pub enum TickDuty {
    /// Fetch suggestions when they are due.
    Suggestions,
    /// Advance the countdown.
    Countdown,
    /// Nothing.
    Nothing,
}

/// What the screen is asking for.
#[derive(Clone, Copy, Debug, PartialEq, Eq, Structural)]
pub enum Mode {
    InputStart,
    InputDest,
    InputDuration,
    Timer,
}

/// The text field and its suggestion list. `cursor` is a byte position;
/// `last_edit_at` an instant.
pub struct InputState {
    pub text: String,
    pub cursor: usize,
    pub suggestions: Vec<Place>,
    pub selected: usize,
    pub last_edit_at: u128,
    pub last_queried: String,
    pub loading: bool,
    pub error: Option<String>,
}

/// The countdown: started at `start`, running for `duration`; `zero_at` is
/// when it was seen at zero.
pub struct TimerState {
    pub start: u128,
    pub duration: u128,
    pub notified: bool,
    pub zero_at: Option<u128>,
}

/// The whole application state.
pub struct App {
    pub mode: Mode,
    pub input: InputState,
    pub timer: TimerState,
    pub api_key: String,
    pub chosen_start: Option<Place>,
    pub chosen_dest: Option<Place>,
    pub approach_minutes: Option<u64>,
    pub config: Option<AppConfig>,
    pub journeys: Vec<JourneyRow>,
    pub journeys_selected: usize,
    pub journeys_loading: bool,
    pub journeys_error: Option<String>,
}

/// The place that a saved station stands for: a stop area.
pub open spec fn place_of_saved(p: Place, s: SavedPlace) -> bool {
    &&& p.id@ == s.id@
    &&& p.name@ == s.name@
    &&& p.embedded_type matches Some(t) && t@ == "stop_area"@
}

/// `a - b`, or zero when `b` is later (as `Instant` arithmetic saturates).
pub open spec fn elapsed_between(then: u128, now: u128) -> u128 {
    if now >= then {
        (now - then) as u128
    } else {
        0
    }
}

/// What the suggestion list shows.
pub open spec fn suggestion_items_spec(a: App) -> Seq<Seq<char>> {
    match a.mode {
        Mode::InputDuration => {
            let first: Seq<Seq<char>> = match a.input.error {
                Some(e) => seq!["Error: "@ + e@],
                None => Seq::empty(),
            };
            first.push("Enter minutes and press Enter"@)
        },
        _ => {
            if a.input.loading {
                seq!["Loading..."@]
            } else if a.input.error is Some {
                seq!["Error: "@ + a.input.error.unwrap()@]
            } else if a.input.suggestions@.len() == 0 && text_bytes(a.input.text@).len()
                >= MIN_QUERY_LEN {
                seq!["No results"@]
            } else {
                a.input.suggestions@.map_values(|p: Place| p.name@)
            }
        },
    }
}

/// Whether the suggestions are due: a query of at least two bytes, not the
/// one last answered, untouched for the debounce time.
pub open spec fn suggestions_due(a: App, now: u128) -> bool {
    &&& text_bytes(a.input.text@).len() >= MIN_QUERY_LEN
    &&& a.input.text@ != a.input.last_queried@
    &&& elapsed_between(a.input.last_edit_at, now) >= SUGGESTION_DEBOUNCE_MS as u128
        * NANOS_PER_MILLI
}

/// `x as i64` on a `u64`: the same bits read as a signed number.
pub open spec fn as_signed(x: u64) -> int {
    if x <= i64::MAX {
        x as int
    } else {
        x - 18446744073709551616
    }
}

/// The seconds to count down for a departure `seconds_until` away: less the
/// approach time when a configuration is saved, never below zero.
pub open spec fn countdown_seconds(a: App, seconds_until: int) -> int {
    let s = match a.config {
        Some(c) => seconds_until - as_signed(c.approach_minutes) * 60,
        None => seconds_until,
    };
    if s < 0 {
        0
    } else {
        s
    }
}

/// A tick at `now` sends the notification: on the countdown screen, once
/// the whole duration has passed, and not yet notified.
pub open spec fn tick_fires(a: App, now: u128) -> bool {
    &&& a.mode == Mode::Timer
    &&& elapsed_between(a.timer.start, now) >= a.timer.duration
    &&& !a.timer.notified
}

/// The countdown after the tick that sends the notification.
pub open spec fn ticked_timer(t: TimerState, now: u128) -> TimerState {
    TimerState { start: t.start, duration: t.duration, notified: true, zero_at: Some(now) }
}

/// Law: the notification comes when the countdown runs out. A tick on the
/// countdown screen, not yet notified, fires exactly when at least the
/// countdown's duration has passed since its start (a tick before the start
/// fires only for a countdown of zero); on another screen, or once
/// notified, it never fires.
pub proof fn law_tick_fires_when_time_is_up(a: App, now: u128)
    ensures
        tick_fires(a, now) <==> (a.mode == Mode::Timer && !a.timer.notified && (if now
            >= a.timer.start {
            now - a.timer.start >= a.timer.duration
        } else {
            a.timer.duration == 0
        })),
{
}

/// Law: what the suggestion list shows. On the approach-time screen, the
/// error (if any) and then the hint. On the station screens: only
/// "Loading..." while a search runs; otherwise only "Error: " and the
/// message after a failed search, whatever the text and the suggestions;
/// otherwise "No results" when a query of two bytes or more found nothing;
/// otherwise the names of the suggestions, in order.
pub proof fn law_suggestion_list(a: App)
    ensures
        ({
            let list = suggestion_items_spec(a);
            let station = a.mode != Mode::InputDuration;
            let nothing_found = a.input.suggestions@.len() == 0 && text_bytes(a.input.text@).len()
                >= 2;
            &&& !station ==> list == (match a.input.error {
                Some(e) => seq!["Error: "@ + e@, "Enter minutes and press Enter"@],
                None => seq!["Enter minutes and press Enter"@],
            })
            &&& station && a.input.loading ==> list == seq!["Loading..."@]
            &&& station && !a.input.loading && a.input.error is Some ==> list == seq![
                "Error: "@ + a.input.error->0@,
            ]
            &&& station && !a.input.loading && a.input.error is None && nothing_found ==> list
                == seq!["No results"@]
            &&& station && !a.input.loading && a.input.error is None && !nothing_found ==> {
                &&& list.len() == a.input.suggestions@.len()
                &&& forall|k: int|
                    0 <= k < list.len() ==> #[trigger] list[k] == a.input.suggestions@[k].name@
            }
        }),
{
}

/// Law: one notification per countdown. Once a tick has sent the
/// notification, no later tick sends another until the countdown is
/// started again (which clears `notified`).
pub proof fn law_single_notification(a: App, now1: u128, now2: u128)
    requires
        tick_fires(a, now1),
    ensures
        !tick_fires(App { timer: ticked_timer(a.timer, now1), ..a }, now2),
{
}

impl App {
    /// The state's own consistency: the cursor lies within the text, and
    /// each selection lies within its list (or is zero).
    pub open spec fn inv(self) -> bool {
        &&& self.input.cursor <= text_bytes(self.input.text@).len()
        &&& self.input.selected == 0 || self.input.selected < self.input.suggestions@.len()
        &&& self.journeys_selected == 0 || self.journeys_selected < self.journeys@.len()
    }

    /// The state at start-up, given the configuration found on disk (if
    /// any): straight to the countdown with a configuration, to the choice of
    /// the departure station without.
    pub fn new(api_key: String, loaded: Option<AppConfig>, now: u128) -> (r: App)
        requires
            loaded matches Some(c) ==> c.approach_minutes * 60 <= u64::MAX,
        ensures
            r.inv(),
            r.mode == (if loaded is Some {
                Mode::Timer
            } else {
                Mode::InputStart
            }),
            r.input.text@.len() == 0,
            r.input.cursor == 0,
            r.input.suggestions@.len() == 0,
            r.input.selected == 0,
            r.input.last_edit_at == now,
            r.input.last_queried@.len() == 0,
            !r.input.loading,
            r.input.error is None,
            r.timer.start == now,
            r.timer.duration == match loaded {
                Some(c) => c.approach_minutes * 60 * NANOS_PER_SEC,
                None => DEFAULT_TIMER_SECS * NANOS_PER_SEC,
            },
            !r.timer.notified,
            r.timer.zero_at is None,
            r.api_key == api_key,
            loaded is None ==> r.chosen_start is None && r.chosen_dest is None
                && r.approach_minutes is None,
            loaded matches Some(c) ==> {
                &&& r.chosen_start matches Some(p) && place_of_saved(p, c.start)
                &&& r.chosen_dest matches Some(p) && place_of_saved(p, c.destination)
                &&& r.approach_minutes == Some(c.approach_minutes)
            },
            r.config == loaded,
            r.journeys@.len() == 0,
            r.journeys_selected == 0,
            !r.journeys_loading,
            r.journeys_error is None,
    {
        let (chosen_start, chosen_dest, approach_minutes, duration) = match &loaded {
            Some(c) => {
                let s = Place {
                    id: c.start.id.clone(),
                    name: c.start.name.clone(),
                    embedded_type: Some("stop_area".to_owned()),
                };
                let d = Place {
                    id: c.destination.id.clone(),
                    name: c.destination.name.clone(),
                    embedded_type: Some("stop_area".to_owned()),
                };
                (
                    Some(s),
                    Some(d),
                    Some(c.approach_minutes),
                    (c.approach_minutes * 60) as u128 * NANOS_PER_SEC,
                )
            },
            None => (None, None, None, DEFAULT_TIMER_SECS as u128 * NANOS_PER_SEC),
        };
        let mode = if loaded.is_some() {
            Mode::Timer
        } else {
            Mode::InputStart
        };
        let r = App {
            mode,
            input: InputState {
                text: String::new(),
                cursor: 0,
                suggestions: Vec::new(),
                selected: 0,
                last_edit_at: now,
                last_queried: String::new(),
                loading: false,
                error: None,
            },
            timer: TimerState { start: now, duration, notified: false, zero_at: None },
            api_key,
            chosen_start,
            chosen_dest,
            approach_minutes,
            config: loaded,
            journeys: Vec::new(),
            journeys_selected: 0,
            journeys_loading: false,
            journeys_error: None,
        };
        r
    }

    /// What remains of the countdown after `elapsed`: nothing once the whole
    /// duration has passed.
    pub fn remaining_time(&self, elapsed: u128) -> (r: u128)
        ensures
            r == (if elapsed >= self.timer.duration {
                0
            } else {
                (self.timer.duration - elapsed) as u128
            }),
    {
        if elapsed >= self.timer.duration {
            0
        } else {
            self.timer.duration - elapsed
        }
    }

    /// The title of the text field.
    pub fn input_title(&self) -> (r: &'static str)
        ensures
            r@ == match self.mode {
                Mode::InputStart => "Start station"@,
                Mode::InputDest => "Destination station"@,
                Mode::InputDuration => "Approach time (minutes)"@,
                Mode::Timer => ""@,
            },
    {
        match self.mode {
            Mode::InputStart => "Start station",
            Mode::InputDest => "Destination station",
            Mode::InputDuration => "Approach time (minutes)",
            Mode::Timer => "",
        }
    }

    /// The lines of the suggestion list: a hint and the last error while
    /// the approach time is typed; otherwise a loading notice, the error, a
    /// "No results" notice for a query of two bytes or more, or the names of
    /// the suggested places.
    pub fn suggestion_items(&self) -> (r: Vec<String>)
        ensures
            r@.map_values(|s: String| s@) == suggestion_items_spec(*self),
    {
        let mut v: Vec<String> = Vec::new();
        match self.mode {
            Mode::InputDuration => {
                match &self.input.error {
                    Some(e) => {
                        let mut line = "Error: ".to_owned();
                        line.append(e.as_str());
                        v.push(line);
                    },
                    None => {},
                }
                v.push("Enter minutes and press Enter".to_owned());
            },
            _ => {
                if self.input.loading {
                    v.push("Loading...".to_owned());
                } else if self.input.error.is_some() {
                    let mut line = "Error: ".to_owned();
                    match &self.input.error {
                        Some(e) => line.append(e.as_str()),
                        None => {},
                    }
                    v.push(line);
                } else if self.input.suggestions.len() == 0 && byte_len(&self.input.text)
                    >= MIN_QUERY_LEN {
                    v.push("No results".to_owned());
                } else {
                    let mut i: usize = 0;
                    while i < self.input.suggestions.len()
                        invariant
                            i <= self.input.suggestions@.len(),
                            v@.len() == i,
                            forall|k: int| 0 <= k < i ==> (#[trigger] v@[k])@ == self.input.suggestions@[k].name@,
                        decreases self.input.suggestions@.len() - i,
                    {
                        v.push(self.input.suggestions[i].name.clone());
                        i = i + 1;
                    }
                    assert(v@.map_values(|s: String| s@) =~= self.input.suggestions@.map_values(
                        |p: Place| p.name@,
                    ));
                }
            },
        }
        assert(v@.map_values(|s: String| s@) =~= suggestion_items_spec(*self));
        v
    }

    /// Empties the text field and its suggestions.
    pub fn reset_input(&mut self)
        ensures
            final(self).input.text@.len() == 0,
            final(self).input.cursor == 0,
            final(self).input.suggestions@.len() == 0,
            final(self).input.selected == 0,
            final(self).input.last_queried@.len() == 0,
            final(self).input.error is None,
            final(self).input.loading == old(self).input.loading,
            final(self).input.last_edit_at == old(self).input.last_edit_at,
            final(self).mode == old(self).mode,
            final(self).timer == old(self).timer,
            final(self).api_key == old(self).api_key,
            final(self).chosen_start == old(self).chosen_start,
            final(self).chosen_dest == old(self).chosen_dest,
            final(self).approach_minutes == old(self).approach_minutes,
            final(self).config == old(self).config,
            final(self).journeys == old(self).journeys,
            final(self).journeys_selected == old(self).journeys_selected,
            final(self).journeys_loading == old(self).journeys_loading,
            final(self).journeys_error == old(self).journeys_error,
            old(self).inv() ==> final(self).inv(),
    {
        self.input.text = String::new();
        self.input.cursor = 0;
        self.input.suggestions = Vec::new();
        self.input.selected = 0;
        self.input.last_queried = String::new();
        self.input.error = None;
    }

    /// The departure of the selected journey (the last one when the
    /// selection is past the end), if there are journeys.
    pub fn selected_departure(&self) -> (r: Option<ZonedTime>)
        ensures
            r == (if self.journeys@.len() == 0 {
                None
            } else if self.journeys_selected < self.journeys@.len() {
                Some(self.journeys@[self.journeys_selected as int].dep)
            } else {
                Some(self.journeys@[self.journeys@.len() - 1].dep)
            }),
    {
        if self.journeys.len() == 0 {
            return None;
        }
        let last = self.journeys.len() - 1;
        let sel = if self.journeys_selected < last {
            self.journeys_selected
        } else {
            last
        };
        Some(self.journeys[sel].dep)
    }

    /// Restarts the countdown for the selected journey, `seconds_until` being
    /// the seconds from now to its departure: the approach time (when a
    /// configuration is saved) comes off, and the countdown never starts
    /// below zero. Nothing changes when there are no journeys.
    pub fn update_timer_from_selection(&mut self, seconds_until: i64, now: u128)
        requires
            old(self).journeys@.len() > 0 ==> (old(self).config matches Some(c) ==> {
                &&& i64::MIN <= as_signed(c.approach_minutes) * 60 <= i64::MAX
                &&& i64::MIN <= seconds_until - as_signed(c.approach_minutes) * 60 <= i64::MAX
            }),
        ensures
            old(self).journeys@.len() == 0 ==> *final(self) == *old(self),
            old(self).journeys@.len() > 0 ==> final(self).timer == (TimerState {
                start: now,
                duration: (countdown_seconds(*old(self), seconds_until as int)
                    * NANOS_PER_SEC) as u128,
                notified: false,
                zero_at: None,
            }),
            final(self).mode == old(self).mode,
            final(self).input == old(self).input,
            final(self).api_key == old(self).api_key,
            final(self).chosen_start == old(self).chosen_start,
            final(self).chosen_dest == old(self).chosen_dest,
            final(self).approach_minutes == old(self).approach_minutes,
            final(self).config == old(self).config,
            final(self).journeys == old(self).journeys,
            final(self).journeys_selected == old(self).journeys_selected,
            final(self).journeys_loading == old(self).journeys_loading,
            final(self).journeys_error == old(self).journeys_error,
            old(self).inv() ==> final(self).inv(),
    {
        if self.journeys.len() == 0 {
            return ;
        }
        let mut secs = seconds_until;
        match &self.config {
            Some(conf) => {
                // the approach time read as an `i64` (bits kept, as `as` does)
                let a = conf.approach_minutes;
                let signed: i64 = if a <= 9223372036854775807 {
                    a as i64
                } else {
                    ((a - 9223372036854775808) as i64) - 9223372036854775807 - 1
                };
                secs = secs - signed * 60;
            },
            None => {},
        }
        if secs < 0 {
            secs = 0;
        }
        self.timer.start = now;
        self.timer.duration = (secs as u64) as u128 * NANOS_PER_SEC;
        self.timer.notified = false;
        self.timer.zero_at = None;
    }

    /// Decides whether to fetch suggestions now. When they are due the field
    /// turns to loading and the query (the text) is returned; otherwise
    /// nothing changes.
    pub fn suggestion_query(&mut self, now: u128) -> (r: Option<String>)
        ensures
            suggestions_due(*old(self), now) ==> (r matches Some(q) && q@ == old(self).input.text@)
                && final(self).input.loading,
            !suggestions_due(*old(self), now) ==> r is None && *final(self) == *old(self),
            suggestions_due(*old(self), now) ==> *final(self) == (App {
                input: InputState { loading: true, ..old(self).input },
                ..*old(self)
            }),
            final(self).input.text == old(self).input.text,
            final(self).input.cursor == old(self).input.cursor,
            final(self).input.suggestions == old(self).input.suggestions,
            final(self).input.selected == old(self).input.selected,
            final(self).input.last_edit_at == old(self).input.last_edit_at,
            final(self).input.last_queried == old(self).input.last_queried,
            final(self).input.error == old(self).input.error,
            final(self).mode == old(self).mode,
            final(self).timer == old(self).timer,
            final(self).config == old(self).config,
            final(self).journeys == old(self).journeys,
            final(self).journeys_selected == old(self).journeys_selected,
            old(self).inv() ==> final(self).inv(),
    {
        let elapsed = if now >= self.input.last_edit_at {
            now - self.input.last_edit_at
        } else {
            0
        };
        if byte_len(&self.input.text) >= MIN_QUERY_LEN && !self.input.text.eq(
            &self.input.last_queried,
        ) && elapsed >= SUGGESTION_DEBOUNCE_MS as u128 * NANOS_PER_MILLI {
            self.input.loading = true;
            Some(self.input.text.clone())
        } else {
            None
        }
    }

    /// Takes in the answer to the suggestion query `query`: the places (the
    /// selection back to the first, the error cleared, the query remembered)
    /// or the error message. The field stops loading either way.
    pub fn apply_suggestions(&mut self, query: String, result: Result<Vec<Place>, String>)
        ensures
            !final(self).input.loading,
            match result {
                Ok(list) => {
                    &&& final(self).input.suggestions == list
                    &&& final(self).input.selected == 0
                    &&& final(self).input.error is None
                    &&& final(self).input.last_queried == query
                },
                Err(e) => {
                    &&& final(self).input.suggestions == old(self).input.suggestions
                    &&& final(self).input.selected == old(self).input.selected
                    &&& final(self).input.error == Some(e)
                    &&& final(self).input.last_queried == old(self).input.last_queried
                },
            },
            *final(self) == (App { input: final(self).input, ..*old(self) }),
            final(self).input.text == old(self).input.text,
            final(self).input.cursor == old(self).input.cursor,
            final(self).input.last_edit_at == old(self).input.last_edit_at,
            final(self).mode == old(self).mode,
            final(self).timer == old(self).timer,
            final(self).config == old(self).config,
            final(self).journeys == old(self).journeys,
            final(self).journeys_selected == old(self).journeys_selected,
            old(self).inv() ==> final(self).inv(),
    {
        match result {
            Ok(list) => {
                self.input.suggestions = list;
                self.input.selected = 0;
                self.input.error = None;
                self.input.last_queried = query;
            },
            Err(e) => {
                self.input.error = Some(e);
            },
        }
        self.input.loading = false;
    }

    /// Starts a refresh of the journeys when a configuration is saved: the
    /// list turns to loading, its error is cleared, and the two station ids
    /// to ask for are returned. Without a configuration nothing changes.
    pub fn begin_refresh(&mut self) -> (r: Option<(String, String)>)
        ensures
            old(self).config is None ==> r is None && *final(self) == *old(self),
            old(self).config matches Some(c) ==> (r matches Some(ids) && ids.0@ == c.start.id@
                && ids.1@ == c.destination.id@) && *final(self) == (App {
                journeys_loading: true,
                journeys_error: None,
                ..*old(self)
            }),
            final(self).mode == old(self).mode,
            final(self).input == old(self).input,
            final(self).timer == old(self).timer,
            final(self).config == old(self).config,
            final(self).journeys == old(self).journeys,
            final(self).journeys_selected == old(self).journeys_selected,
            old(self).inv() ==> final(self).inv(),
    {
        let ids = match &self.config {
            Some(c) => (c.start.id.clone(), c.destination.id.clone()),
            None => return None,
        };
        self.journeys_loading = true;
        self.journeys_error = None;
        Some(ids)
    }

    /// Takes in the answer to a refresh: the new rows (the selection back to
    /// the first when it falls past the end), or the error message. The list
    /// stops loading either way.
    pub fn finish_refresh(&mut self, result: Result<Vec<JourneyRow>, String>)
        ensures
            !final(self).journeys_loading,
            match result {
                Ok(rows) => {
                    &&& final(self).journeys == rows
                    &&& final(self).journeys_selected == (if old(self).journeys_selected
                        >= rows@.len() {
                        0
                    } else {
                        old(self).journeys_selected
                    })
                    &&& final(self).journeys_error == old(self).journeys_error
                },
                Err(e) => {
                    &&& final(self).journeys == old(self).journeys
                    &&& final(self).journeys_selected == old(self).journeys_selected
                    &&& final(self).journeys_error == Some(e)
                },
            },
            *final(self) == (App {
                journeys: final(self).journeys,
                journeys_selected: final(self).journeys_selected,
                journeys_loading: false,
                journeys_error: final(self).journeys_error,
                ..*old(self)
            }),
            final(self).mode == old(self).mode,
            final(self).input == old(self).input,
            final(self).timer == old(self).timer,
            final(self).config == old(self).config,
            old(self).inv() ==> final(self).inv(),
    {
        match result {
            Ok(rows) => {
                self.journeys = rows;
                if self.journeys_selected >= self.journeys.len() {
                    self.journeys_selected = 0;
                }
            },
            Err(e) => {
                self.journeys_error = Some(e);
            },
        }
        self.journeys_loading = false;
    }

    /// What a pass of the event loop does besides drawing: on the station
    /// screens it looks for due suggestions, on the countdown screen it
    /// advances the countdown, on the approach-time screen nothing.
    pub fn tick_duty(&self) -> (r: TickDuty)
        ensures
            r == (match self.mode {
                Mode::InputStart | Mode::InputDest => TickDuty::Suggestions,
                Mode::InputDuration => TickDuty::Nothing,
                Mode::Timer => TickDuty::Countdown,
            }),
    {
        match self.mode {
            Mode::InputStart | Mode::InputDest => TickDuty::Suggestions,
            Mode::InputDuration => TickDuty::Nothing,
            Mode::Timer => TickDuty::Countdown,
        }
    }

    /// One tick of the countdown screen: the first time the countdown is
    /// seen at zero it is marked notified, the instant is kept, and `true`
    /// asks for the notification. Outside the countdown screen, or already
    /// notified, nothing changes.
    pub fn timer_tick(&mut self, now: u128) -> (r: bool)
        ensures
            r == tick_fires(*old(self), now),
            r <==> (old(self).mode == Mode::Timer && !old(self).timer.notified && (if now
                >= old(self).timer.start {
                now - old(self).timer.start >= old(self).timer.duration
            } else {
                old(self).timer.duration == 0
            })),
            r ==> *final(self) == (App { timer: ticked_timer(old(self).timer, now), ..*old(self) }),
            !r ==> *final(self) == *old(self),
            final(self).mode == old(self).mode,
            final(self).input == old(self).input,
            final(self).config == old(self).config,
            final(self).journeys == old(self).journeys,
            final(self).journeys_selected == old(self).journeys_selected,
            old(self).inv() ==> final(self).inv(),
    {
        if self.mode != Mode::Timer {
            return false;
        }
        let elapsed = if now >= self.timer.start {
            now - self.timer.start
        } else {
            0
        };
        let remaining = self.remaining_time(elapsed);
        if remaining == 0 && !self.timer.notified {
            self.timer.notified = true;
            self.timer.zero_at = Some(now);
            true
        } else {
            false
        }
    }

    /// Whether the countdown digits are shown: always until zero was seen,
    /// then alternately for half a second on and half a second off.
    pub fn timer_visible(&self, now: u128) -> (r: bool)
        ensures
            r == match self.timer.zero_at {
                Some(z) => (elapsed_between(z, now) / NANOS_PER_MILLI / 500) % 2 == 0,
                None => true,
            },
    {
        match self.timer.zero_at {
            Some(z) => {
                let since = if now >= z {
                    now - z
                } else {
                    0
                };
                (since / NANOS_PER_MILLI / 500) % 2 == 0
            },
            None => true,
        }
    }
}

} // verus!
