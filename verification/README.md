# clipnotex

The core of ClipNoteX, a clipboard manager with an encrypted history and a
work diary (DONE LOG), written in Verus. The library's own functions in
`src/` are proved against their `requires`/`ensures` contracts; calls into
outside crates and std go through trusted wrappers (marked
`#[verifier::external_body]`) whose contracts are believed, not proved.
Random keys, fresh ids and clock readings carry no promise beyond their
type.

## Layout

- `src/` — the verified library.
  - `text.rs` — character-level helpers (trimming, lines, joining, decimal
    text, UTF-8) with their specifications.
  - `ids.rs`, `model.rs`, `settings.rs`, `bus.rs`, `error.rs` — the data model.
  - `format/` — language detection and the JSON, SQL, Markdown and plain-text
    formatters.
  - `store/` — base64 key text, the XChaCha20-Poly1305 sealer, blob paths,
    and the history store's decisions: eviction plans, recent listings,
    schema versions, blob offloading.
  - `donelog/` — DONE LOG entries, user edits with their history, calendar
    dates, the Markdown digest and the date index.
  - `clipboard/` — captures, the self-write guard, DIB to PNG.
  - `capture.rs`, `paste.rs`, `hotkey.rs`, `thumbnail.rs` — what the capture
    loop, the paste path, the hotkey table and the thumbnail cache decide.
  - `api.rs`, `commands.rs`, `setup.rs` — the decisions behind the C
    interface, the desktop commands and application start-up.
- `tests/` — tests of the library.
- `app/` — the services around the library: redb storage, the keychain,
  the event bus, the asynchronous capture loop, clipboard pasting and the C
  interface.

Outside crates (serde_json, sqlformat, chacha20poly1305, ulid, blake3,
image, chrono, rand) are called from `src/` through small trusted wrappers
whose contracts name or state what the crates return.
