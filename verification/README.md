# voquill

The decision logic of a desktop dictation app, written in Verus and verified: what it
types into a text field, how it finds a bound field again, which microphone it opens,
how it gathers screen context, how it keeps a sign-in session, and how it stores
transcriptions.

## Layout

- `src/` is the verified library. Each public function states its result in `ensures`.
  Each law that spans several functions is a public proof function, named `lemma_…`.
  - `text_diff`: edit regions between two texts, and the keystrokes that apply them.
  - `accessibility`, `uia`, `ax`, `field_info`: accessibility trees on Windows (UI
    Automation, Java Access Bridge) and macOS. This covers fingerprint matching, screen
    context, tree dumps, and reading and writing fields.
  - `audio_devices`, `recorder`, `emitters`, `transcription`: microphone choice, the
    recording state, level and chunk throttling, silence trimming, and compute devices.
  - `auth`, `tray`, `commands`, `permissions`, `platform`, `linux`, `pill`,
    `screen_capture`: session tokens, the tray menu, command checks, and platform rules.
  - `db`, `migrations`: stored transcriptions and the schema history.
  - `text`, `order`: the string helpers and the stable ordering that the others use.
- `tests/` runs the library on concrete values.
- `app/` is ordinary Rust around the library: serde copies of its types, environment and
  clock reads, Wayland clipboard commands, and the float work on audio samples.

Calls into `url` and `serde_json` go through a few small trusted wrappers. Each wrapper's
doc comment says what its contract claims of the outside function.
