# larmindon

A verified core for real-time speech-to-text: what a transcription session does
with the audio it captures, the results it gets and the errors it meets.

- `src/` is the library. Every function in it carries a contract that Verus
  proves. Samples are generic, and floating-point settings are held as their bits,
  so no proof rests on floating-point arithmetic.
  - `vad`: the pre-speech ring buffer and the state machine over speech
    probabilities.
  - `decoder`, `decoder_laws`, `drain_laws`: cutting audio into chunks, when a
    decoder is reset or fed again, and that scheduling changes none of it.
  - `audio_engine`, `session_laws`: the loop of a session, and what holds of every
    run of it.
  - `asr`: the recognition backends; `asr::soniox` holds the protocol, the token
    accumulator, the socket session and the backend over them.
  - `audio_capture`: devices, their ids and their order, and the capture buffer.
  - `settings`, `paths`, `report`: the settings, their limits and their messages.
  - `diag`: the rows of the diagnostics database.
  - `engine`: the same loop around pluggable speech engines, with their registry,
    settings and diagnostics.
  - `json`: the calls into `serde_json`; the only code that is believed rather than
    proved.
- `tests/` runs the compiled library.
- `app/` is ordinary Rust around it: devices, models, the socket, files, the
  database and the threads. The library's loops hand out actions; `app/` performs
  them and reports the events back.
