# snapshort

The verified core of Snapshort, a non-linear video editor, written in Verus.

## Layout

- `src/` — the library. Every function carries a `requires`/`ensures`
  contract that Verus proves; the laws the editor relies on are public
  proof functions (`law_*`).
  - `value_objects` — frames, frame ranges, SMPTE timecodes, frame rates,
    resolutions (fitting uses an exact model of the 64-bit float arithmetic,
    `binary64`).
  - `asset`, `jobs`, `timeline` — the domain: assets and projects, job kinds
    and states, the timeline's clip layout (insert, remove, update, ripple
    delete, trims and splits) with its no-overlap laws.
  - `job_store`, `project_store` — the persisted job queue (lifecycle,
    pending list oldest first, crash recovery) and the project library
    (save as upsert, read-back, delete, listing most recent first, file
    names).
  - `render`, `export` — export settings validation, encoder profiles,
    export-plan sampling and findings, thumbnail scaling, and the export
    slot of the backend (one export at a time, cancellation).
  - `editor`, `inspector`, `desktop`, `web_backend` — the editor's status
    state and asset list and how events change them, the inspector's
    memory, display formats, snap candidates and the asset search, and the
    browser backend's playback clock.
  - `cli`, `ai` — the command line's checks and texts, the AI services'
    availability, errors and transcript search.
- `tests/` — the test suite, run against the compiled library.
- `app/` — the `snapshort-cli` program and the glue that does I/O, keeps
  time, or computes with floats around the library.

## Outside code

The library calls `uuid` (random identifiers, hyphenated text), `web-time`
and `chrono` (the clock), and std's `str::to_lowercase`,
`Path::file_name` and `String::push` through small trusted wrappers whose
contracts state only what those functions document.
