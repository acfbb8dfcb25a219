# hush

Local push-to-talk dictation for macOS: hold a shortcut (default **fn**),
talk, release, and the transcript is pasted at the cursor.

## Layout

- `src/` — the verified library (Verus). Every function carries a
  contract over mathematical models (`Seq`, views, spec
  functions), and the laws of the library are public proof functions.
  - `pipeline` — the dictation state machine over its capture,
    transcription, output and status adapters. Each adapter trait keeps an
    abstract record of the calls made on it, and `handle` states exactly
    how every record grows; laws: idempotent edges, `Error` always followed
    by `Idle`, delivery of exactly the transcript of exactly the captured
    samples.
  - `shortcut` — the push-to-talk engine and shortcut recording; laws:
    `Start`/`Stop` alternate over any run of events, the chord follows the
    binding, recording never triggers dictation, Escape cancels, a run
    commits exactly on full release and the shortcut gathers every modifier
    held during the run and the first key with its label, the held
    modifiers come in a fixed order.
  - `config` — shortcut tokens and the configuration; law: tokens and
    stored fields read back as written.
  - `cleanup`, `custom_parser`, `ollama`, `models`, `prefs`, `autostart`,
    `perms`, `overlay`, `ui`, `output` — the text, planning and decision
    rules around them.
  - `text`, `numbers`, `paths` — verified string, number and path helpers;
    the short character sets (whitespace, control codes) are computed and
    proved here, the JSON string escaping is spelled out, and the case
    tables are named, not restated; where a named table feeds a decision,
    a public function takes its answer as an argument.
- `tests/` — tests run against the compiled library.
- `app/` — the macOS application around the library: AppKit windows and
  the menubar, audio capture, the speech models, the JavaScript engine for
  the custom parser, HTTP to Ollama, and file access.
