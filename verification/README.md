# oic_fox_fuckery

Annotates an OIC beer league hockey team calendar with the shows at the nearby
Fox Theater that overlap each game, so that a subscriber learns in advance that
a show will make getting to the rink hard.

- `src/` is the verified library (Verus):
  - `instant`: instants as seconds, chrono's range, dates to their UTC midnight,
    instants as Pacific wall-clock text;
  - `venue`: the three-hour window around each show and the stable ordering of
    shows by start, with its laws (among them: listing the same shows in
    another order gives the same windows when no two start together);
  - `calendar`: what is read of each calendar component, the annotation of
    game summaries, its laws, and the iCalendar response. The response text
    reads back to the annotated calendar's components when the calendar is
    free of what icalendar does not write back faithfully (as a calendar
    parsed from text without empty lines, double quotes or escaped line
    breaks is), and to the rest of its content when, besides, every component
    holds a `DTSTAMP` and a `UID`;
  - `decimal`: decimal text of integers;
  - `settings`: settings, upstream addresses and cache keys.
- `app/` is the web service around it: HTTP routes (axum), the fetches from the
  calendar service and the ticketing API (reqwest, without TLS or
  decompression), the cache and the settings file.
- `tests/` runs the library against the real icalendar and chrono crates.
