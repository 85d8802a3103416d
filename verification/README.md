# amp_android

Logic of a street-cleaning parking app for Malmö, written in Verus. Every
function under `src/` carries a contract; Verus proves all of them except six
trusted wrappers, marked `external_body`, around chrono's calendar and clock
(`calendar.rs`), `str::to_lowercase` (`text.rs`) and uuid's random ids
(`ui/mod.rs`), whose contracts state what those outside functions document.

- `src/calendar.rs`, `src/swedish_time.rs`: Gregorian day numbers and Swedish
  civil time (CET/CEST), with the clock and calendar readings taken from chrono.
- `src/structs.rs`: a restriction of one address in one month (`DB`) and the
  persisted records.
- `src/components/`: urgency buckets and countdowns, validity of a day in a
  month, address validation and matching, settings, translations, the tracker of
  bucket transitions, notification planning, the background check, the
  lifecycle state machine and the persisted address rows.
- `src/countdown.rs`, `src/ui/`: grouping and ordering of the panels, address
  entry and the list of followed addresses.
- `app/`: the file, JNI and geographic parts, which stay outside verification.
- `tests/`: scenario tests run against the compiled library.
