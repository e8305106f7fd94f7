# screamer

The logic of an offline dictation and ambient notetaking app, written in Verus: the
functions in `src/` state what they do in `requires` / `ensures`, and Verus proves them.
The exceptions are six small trusted wrappers, each marked `#[verifier::external_body]` and
documented: they call `char::is_alphanumeric`, `String::push`, `str::to_lowercase`,
`std::path::Path::exists`, `sha2::Sha256::digest` and `hex::encode`, and Verus believes
their contracts.

- `src/` — the verified library: text handling and markdown polishing, transcripts and
  ambient sessions, speaker diarization and the final pass (regions, clustering labels,
  model windows), the session store codecs, settings and their normalization, the hotkey
  state machine, logging lines, the session controller's decisions, evaluation metrics,
  command lines of the tools, and the view models of the windows.
- `tests/` — tests of the library on concrete values.
- `app/` — the headless program around the library: configuration and session files,
  the SQLite store, asset discovery, the helper processes, and the floating-point audio
  steps (resampling, frame energy) that feed the library's integer decisions.
