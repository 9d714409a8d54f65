# stockbit_cli

A command-line client for Stockbit's `exodus` REST API, Yahoo Finance and IDX
trading summaries, written in Verus. It prints the upstream JSON to stdout.

## Layout

- `src/` — the verified library:
  - `api/` — Stockbit endpoints: symbol normalization, strict `YYYY-MM-DD`
    validation, year-limit snapping, and the exact path and query of each request.
  - `yahoo/` — Yahoo client, `.JK` suffixing, chart / crumb / `quoteSummary`
    URLs, crumb checks; `yahoo/daily.rs` holds the calendar conversions
    (`ymd_to_unix`, `unix_to_ymd`) and the daily chart window and rows.
  - `idx/` — IDX client, trading-summary requests, Cloudflare challenge detection.
  - `client.rs`, `config.rs`, `stored_config.rs` — the Stockbit client, config
    precedence (flag > environment > stored file > default; a blank token counts
    as absent), stored settings.
  - `retry.rs` — the retry policy as a state machine (linear backoff capped at
    30 s, transient failures only, at most `max_retries` retries).
  - `calendar.rs`, `text.rs`, `util.rs`, `http.rs`, `error.rs`, `cli.rs`,
    `output.rs` — calendar mathematics, string helpers, the outside URL/HTTP
    calls, the error type, the command surface and output format.
- `app/` — the `stockbit` program: argument parsing, HTTP sending and the retry
  loop, the settings file on disk, JSON output.
- `tests/` — tests of the library.
