# dashboard_server

The verified core of the Hermes usage dashboard server, written in Verus.

- `src/` is the library. It builds the time-slot charts of API calls and
  tokens (`buckets`), the daily windows of the history view (`history`), the
  whole-number statistics of a window and of a model (`stats`), the totals of
  the API key pool (`pool`), the replies of the session endpoints
  (`sessions`), and the texts shown for slots and sessions (`labels`, `text`).
  Calendar readings come from chrono through the two trusted wrappers in
  `clock`.
- `app/` is the HTTP server: routes (axum), SQLite reads and writes
  (rusqlite), the helper scripts it runs, JSON, and the floating-point figures
  (averages, rates, costs and the alert rules).
- `tests/` exercises the library.
