# trainwreck

A transit departure viewer for GTFS static feeds (ZIP archives), with optional
real-time delays, cancellations and skipped stops from GTFS-RT. The library is
written in Verus: every function in `src/` carries a contract that Verus proves.

## Layout

- `src/` — the verified library
  - `text.rs`, `time.rs` — characters, numbers, service times, civil dates
  - `model.rs`, `table.rs`, `records.rs` — the GTFS records and how CSV rows decode into them
  - `zipfile.rs`, `archive.rs`, `data.rs` — reading a feed: one file per query, or all at once
  - `calendar.rs`, `stops.rs`, `query.rs` — active services, stop search and station
    families, departures and route summaries
  - `realtime.rs` — trip updates and the status of a departure
  - `api.rs`, `board.rs` — what the REST API returns, the departure board's rows and
    badges, and the terminal's departure lines
- `tests/` — tests on concrete feeds
- `app/` — the command line (`query` and `web`), the HTTP server and the GTFS-RT client

## Usage

```
trainwreck query <GTFS_ZIP> [STOP_QUERY] [--api-key <KEY>]
trainwreck web <GTFS_ZIP> [--api-key <KEY>] [--bind <ADDR>] [--timezone <TZ>] [--web-dir <DIR>]
```

The API key can also be given in the `OTD_API_KEY` environment variable.
