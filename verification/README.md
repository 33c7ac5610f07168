# sncf_timer

A terminal countdown to the next SNCF train: pick a departure and an
arrival station (live search against the SNCF API), give the minutes you
need to reach the station, and the screen counts down to the moment you
have to leave, beside the list of upcoming journeys. A desktop notification
fires once when the countdown reaches zero.

## Layout

- `src/` — the verified library (Verus):
  - `digits.rs` — reading integers out of bytes as Rust's `FromStr` does;
  - `calendar.rs` — distinct wall-clock readings are distinct instants,
    and the earlier reading is the earlier instant;
  - `civil.rs` — wall-clock date-times: SNCF's `YYYYMMDDTHHMMSS` notation,
    resolution in the machine's time zone (jiff), "HH:MM" / "YYYY-MM-DD"
    cut from jiff's printed form, and the reading of
    `YYYY-MM-DDTHH:MM:SSZ` as Unix seconds;
  - `api.rs` — the request URLs (percent-encoded with `urlencoding`), the
    places and journeys records, the stop-area filter, journey rows, and a
    canned client;
  - `state.rs` — the application state and its decisions (suggestion
    debounce, refreshes, the countdown and its single notification);
  - `keys.rs` — what each key does on each screen, and the reading of the
    typed minutes;
  - `display.rs` — the text the screens print;
  - `text_order.rs` — reading jiff's UTC texts back keeps their byte order;
  - `text.rs` — byte-position string editing and decimal printing.
- `app/` — the program around it: HTTP (reqwest), the configuration file
  (toml), the terminal (crossterm, ratatui, tui-big-text), the clock and
  the notification (notify-rust).
- `tests/` — tests of the library.

Put the API key in `.env` as `SNCF_API_KEY=...` and run the program from
the directory where `config.toml` should live.
