//! What the screens print: the countdown digits, the cells of a journey
//! row, the configuration header, the list selection, the two halves of
//! the text around the cursor, what the journeys panel shows, and the
//! margins of the centred input box.

use vstd::prelude::*;
use vstd::string::StringSliceAdditionalSpecFns;
use vstd::utf8::is_char_boundary;
use crate::api::JourneyRow;
use crate::civil::div_toward_zero;
use crate::state::{AppConfig, InputState, NANOS_PER_SEC};
use crate::text::{
    byte_len, decimal, decimal2, decimal_string, push_char, push_decimal, push_decimal2,
    signed_decimal, signed_decimal_string, text_bytes,
};

verus! {

broadcast use vstd::string::group_string_axioms;

/// "HH:MM:SS" for a number of seconds (the hours take more digits past 99).
pub open spec fn hhmmss_spec(secs: nat) -> Seq<char> {
    decimal2(secs / 3600) + seq![':'] + decimal2((secs % 3600) / 60) + seq![':'] + decimal2(
        secs % 60,
    )
}

/// The countdown digits for a number of seconds.
pub fn format_hhmmss(secs: u64) -> (r: String)
    ensures
        r@ == hhmmss_spec(secs as nat),
{
    let h = secs / 3600;
    let m = (secs % 3600) / 60;
    let s = secs % 60;
    let mut out = String::new();
    push_decimal2(&mut out, h);
    push_char(&mut out, ':');
    push_decimal2(&mut out, m);
    push_char(&mut out, ':');
    push_decimal2(&mut out, s);
    assert(out@ =~= hhmmss_spec(secs as nat));
    out
}

/// The countdown digits for a time left given in nanoseconds: the whole
/// seconds, the part of a second dropped (never rounded up).
pub fn countdown_text(nanos: u128) -> (r: String)
    requires
        nanos / NANOS_PER_SEC <= u64::MAX,
    ensures
        r@ == hhmmss_spec((nanos / NANOS_PER_SEC) as nat),
{
    let secs = (nanos / NANOS_PER_SEC) as u64;
    format_hhmmss(secs)
}

/// The whole minutes of a journey's duration, zero for a negative one.
pub open spec fn duration_minutes(secs: int) -> nat {
    let m = div_toward_zero(secs, 60);
    if m < 0 {
        0
    } else {
        m as nat
    }
}

/// The cells of a journey row: date, departure, arrival, minutes with an
/// `m`, transfers.
pub fn journey_cells(j: &JourneyRow) -> (r: Vec<String>)
    ensures
        r@.len() == 5,
        r@[0]@ == j.date_str@,
        r@[1]@ == j.dep_hm@,
        r@[2]@ == j.arr_hm@,
        r@[3]@ == decimal(duration_minutes(j.duration_secs as int)) + seq!['m'],
        r@[4]@ == signed_decimal(j.nb_transfers as int),
{
    let minutes: u64 = if j.duration_secs >= 0 {
        (j.duration_secs / 60) as u64
    } else {
        0
    };
    let mut dur = String::new();
    push_decimal(&mut dur, minutes);
    push_char(&mut dur, 'm');
    assert(dur@ =~= decimal(duration_minutes(j.duration_secs as int)) + seq!['m']);
    let mut cells: Vec<String> = Vec::new();
    cells.push(j.date_str.clone());
    cells.push(j.dep_hm.clone());
    cells.push(j.arr_hm.clone());
    cells.push(dur);
    cells.push(signed_decimal_string(j.nb_transfers));
    cells
}

/// The header line of the countdown screen.
pub fn config_header(c: &AppConfig) -> (r: String)
    ensures
        r@ == c.start.name@ + " → "@ + c.destination.name@ + " • approach "@ + decimal(
            c.approach_minutes as nat,
        ) + " min"@,
{
    let mut s = c.start.name.clone();
    s.append(" → ");
    s.append(c.destination.name.as_str());
    s.append(" • approach ");
    let n = decimal_string(c.approach_minutes);
    s.append(n.as_str());
    s.append(" min");
    s
}

/// The row to highlight in a list of `len` rows: the selection, or the last
/// row when the selection is past it; none in an empty list.
pub fn clamp_selection(selected: usize, len: usize) -> (r: Option<usize>)
    ensures
        len == 0 ==> r is None,
        len > 0 ==> r == Some(if selected < len {
            selected
        } else {
            (len - 1) as usize
        }),
{
    if len > 0 {
        Some(if selected < len - 1 {
            selected
        } else {
            len - 1
        })
    } else {
        None
    }
}

/// The text before and after the cursor (a cursor past the end counts as at
/// the end).
pub fn input_halves(input: &InputState) -> (r: (String, String))
    requires
        is_char_boundary(
            text_bytes(input.text@),
            if input.cursor <= text_bytes(input.text@).len() {
                input.cursor as int
            } else {
                text_bytes(input.text@).len() as int
            },
        ),
    ensures
        ({
            let b = text_bytes(input.text@);
            let mid = if input.cursor <= b.len() {
                input.cursor as int
            } else {
                b.len() as int
            };
            &&& text_bytes(r.0@) == b.subrange(0, mid)
            &&& text_bytes(r.1@) == b.subrange(mid, b.len() as int)
        }),
{
    let len = byte_len(&input.text);
    let mid = if input.cursor < len {
        input.cursor
    } else {
        len
    };
    let (left, right) = input.text.as_str().split_at(mid);
    (left.to_owned(), right.to_owned())
}

/// What the journeys panel shows.
#[derive(Debug)]
pub enum JourneysPanel {
    /// "Loading..." while a refresh runs.
    Loading,
    /// The message of the last failed refresh.
    Error(String),
    /// The table of journeys.
    Table,
}

/// The journeys panel: "Loading..." while a refresh runs, else "Error: "
/// and the message when the last refresh failed, else the table.
pub fn journeys_panel(loading: bool, error: &Option<String>) -> (r: JourneysPanel)
    ensures
        loading ==> r == JourneysPanel::Loading,
        !loading && error is None ==> r == JourneysPanel::Table,
        !loading && error is Some ==> (r matches JourneysPanel::Error(m) && m@ == "Error: "@
            + error->0@),
{
    if loading {
        return JourneysPanel::Loading;
    }
    match error {
        Some(e) => {
            let mut m = "Error: ".to_owned();
            m.append(e.as_str());
            JourneysPanel::Error(m)
        },
        None => JourneysPanel::Table,
    }
}

/// The percentage of the area left on each side of a centred box that takes
/// `percent` of it.
pub fn side_margin(percent: u16) -> (r: u16)
    requires
        percent <= 100,
    ensures
        r == (100 - percent) / 2,
{
    (100 - percent) / 2
}

} // verus!
