# time

Signed durations, UTC offsets, and the formatting and parsing of offsets through format
descriptions, written in Verus. Every function in `src/` is proved against its contract, except
the few wrappers marked `#[verifier::external_body]` that call `itoa` and std
(`String::from_utf8_lossy`, and the parts and constructor of `core::time::Duration`); their
contracts are trusted, and each says in its doc comment what it claims.

- `src/duration.rs`: `Duration`, modelled as its span in nanoseconds; constructors, unit
  accessors, checked and saturating arithmetic, operators, and the laws that relate them.
- `src/std_duration.rs`: conversions, comparisons and arithmetic with `core::time::Duration`.
- `src/utc_offset.rs`: `UtcOffset`, modelled as hours, minutes and seconds of one sign;
  construction, accessors, formatting, parsing, and the law that parsing reads back what
  formatting wrote.
- `src/format_description/`: the components of a format description and their modifiers.
- `src/formatting.rs`: the text of each component, as bytes.
- `src/parsing.rs`, `src/parsing/`: digit and name combinators, the parser of each component,
  and the parsing of whole descriptions.
- `src/error.rs`: the error types.
- `src/arith.rs`, `src/text.rs`: truncating division, decimal text, and the calls into `itoa`
  and `String::from_utf8_lossy`.
- `app/lib.rs`: what cannot be verified here: floating-point conversions, serde support,
  writing to an `io::Write`, and reading the clock.
