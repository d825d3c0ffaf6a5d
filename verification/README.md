# streamkeep

The core of Streamkeep, an app that saves HLS streams as MP4 files: master
and media playlist planning, variant selection, download bookkeeping, file
naming and the desktop rules of its capture plugin, written in Verus with
contracts and proofs.

- `src/` is the verified library. `hls`, `download` and `session` plan and
  drive a download, and `finish` remuxes and saves it and keeps its record
  (both are state machines whose commands an I/O loop carries out), `metadata` and `commands` name files and folders,
  `storage` keeps job records and the download history, `capture` holds the plugin's requests and
  desktop rules, `binary64` and `bandwidth` model the `f64` arithmetic of the
  progress percentage and the bandwidth labels exactly on integers, and
  `text`, `urls` and `playlist` hold the character helpers and the calls into
  the `url` and `m3u8-rs` crates.
- `app/` is the I/O around it: HTTP with `reqwest`, files, the JSON history
  and settings files, the MP4 remux with `ts-to-mp4`, and serde copies of the
  library's types.
- `tests/` runs the library on concrete inputs.
