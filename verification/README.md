# patter

The decision-making core of Patter, a local-first dictation and meeting-notes
app, written in Verus: every function in `src/` carries a contract that Verus
proves.

## Layout

- `src/text.rs` — character-level string work (Unicode whitespace trimming,
  splitting, joining, searching, decimal formatting) with its specifications.
- `src/whisper.rs` — the Whisper prompt budget, language and sampling choices,
  and which decoded segments count as speech.
- `src/ollama.rs` — cleanup requests and replies, meeting-analysis prompts,
  transcript chunking, reply parsing and progress lines.
- `src/db.rs` — the store's contents (settings, stats, history, meetings) and
  every change the app makes to them.
- `src/registry.rs` — the model catalog, on-disk state of each model from file
  probes, download sources and checks.
- `src/recording.rs`, `src/meeting.rs` — the dictation and meeting pipelines
  as step functions (`dictation_step`, `meeting_step`): from the pipeline's
  state and the outcome of the last piece of outside work to the next state
  and action, with cancellation, fallbacks and voice commands; plus silence
  detection, app profiles, speaker labels, timestamps and titles.
- `src/tray.rs`, `src/commands.rs`, `src/paste.rs`, `src/audio.rs`,
  `src/permissions.rs` — the tray menu, command planning, paste and device
  choices, permission steps.
- `app/` — the Tauri program around the library: audio capture, speech
  engines, HTTP calls to Ollama, files, clipboard and keystrokes, and the
  loops that carry out each pipeline action and hand its outcome back.
- `tests/` — tests of the library on concrete values.

Laws that span functions (deleting twice, probes and model state, chunking
keeps every line, menu ids round-trip, and others) are public proof functions
named `law_*` in the module they concern.

## Left out

The original's dictation code also reads settings its own settings type does
not define, so those features are not here: whisper mode (boosted, filtered
audio and beam search for whispered speech), voice macros (snippet
expansion), personal memory (embedded facts added to the cleanup prompt)
and warming the Ollama model when recording starts. The library keeps the
pieces that would serve them (`whisper::sampling_for`, the whisper note and
fact list of `recording::cleanup_context`), called with those features off.

Model downloads resume after the bytes an interrupted attempt left staged,
and a file whose catalog entry lists a SHA-256 digest takes its name only
when its digest matches. The catalog does not list digests yet, so files
are checked by size until digests are added to it.
