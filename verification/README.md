# wxcore

The verified core of a weather data toolkit (model tiles, radar scans,
upper-air soundings, alerts), written in Verus.

- `src/` is the library. Every function in it is verified against its
  `requires`/`ensures` contract; a few small trusted items wrap calls into
  std (`str::to_lowercase`, `str::to_uppercase`, `String::push`), flate2
  (gzip decoding) and chrono (calendar dates), and say in their doc
  comments what they assume.
- `tests/` holds the tests, run against the compiled library with the real
  outside crates.
- `app/` is the command-line program around the library: argument
  handling, HTTP downloads, JSON output, and the floating-point parts
  (station-model drawing, reading sounding values).

Times handed to the caches are nanosecond readings of a monotonic clock
supplied by the caller, so that every cache decision is a function of its
inputs.
