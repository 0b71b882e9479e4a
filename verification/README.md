# axum_video_upload

A video ingestion server: uploads as raw bodies, multipart forms, streams,
chunked and resumable (chunk by chunk, with progress queries) transfers, and
playback by whole file, chunked transfer or HTTP `Range` windows.

- `src/` is the verified library (Verus): MIME-type rules, identifiers, the
  registry of transfers in progress and its scheduling decisions, the checks
  and file layout of every upload flow, `Range` parsing and windowing, and
  the text and path handling these rest on. `src/laws.rs` states properties
  that span several operations.
- `app/` is the server around it: axum routes and handlers, file I/O, the
  async lock around the registry, the reassembly workers and metrics.
- `tests/` runs the library on concrete inputs.
