# voice_cmd

A local voice-to-text daemon for Linux/Wayland desktops, with an overlay
indicator and a text-to-speech helper. The decisions of all three programs
live in a library whose behaviour is stated in `requires`/`ensures`
contracts and proved with Verus; a thin program crate around it does the
I/O.

## Layout

- `src/` — the verified library:
  - `text`, `paths`, `window` — character-level string and path helpers,
    and the last-`n` window of a sequence;
  - `json` — JSON documents as plain values;
  - `ipc` — the socket's line protocol (parsing and encoding requests);
  - `daemon` — recording state, transcription history and command replies;
  - `vad` — the speech segmenter driven by voice-activity decisions, and
    the fixed-chunk passthrough used without it;
  - `audio` — frame sizes, input-device choice, cutting samples into frames;
  - `hooks` — the output and sound hook command lines;
  - `transcription` — model settings, model-directory checks and the steps
    that make a model available;
  - `config`, `dirs`, `logging`, `errors` — configuration defaults,
    per-user directories, log files and error codes;
  - `overlay`, `cli` — the overlay's and the front end's decisions and
    reports, and the overlay's window of recent energy values;
  - `tts`, `tts_assets` — the text-to-speech helper's decisions.
- `app/` — the programs (`voice-cmd`, `voice-cmd-overlay` and
  `voice-cmd-tts`, chosen by the name the binary is started under): audio
  capture, the socket server, model and asset downloads, GTK, playback and
  everything that works on floating-point samples.
- `tests/` — tests of the library on concrete values.
