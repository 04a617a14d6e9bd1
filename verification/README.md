# ambient-context

A command-line daemon meant to keep a daily written record of the text in
the focused window. This crate is its verified core, written in Verus. It
has no capture engine, day-file writer or redaction: the daemon starts,
stops, reports its status and shows its logs, but records nothing; `today`
and the redacted `snapshot` answer with an error.

- `src/text.rs`: decimal notation, `str::trim`-style trimming, substring
  search, and `u32`/`i32` parsing with the meaning std gives them.
- `src/config.rs`: the daemon's directory and files, the default capture
  folder, iCloud Drive detection.
- `src/daemon.rs`: the status record, the PID file (written and read back
  exactly), the tail of the log, following the log, log lines.
- `src/reader.rs`: the accessibility permission, snapshots, locating the
  helper binary.
- `src/cli.rs`: the checks before capture starts and the reports that the
  commands print.

`app/` holds the program around it: argument parsing, files, processes,
signals and JSON/TOML. `tests/` runs the library on concrete values.
