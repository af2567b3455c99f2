# voice-commander

Hold a key, talk, release, and your voice goes wherever you tell it to.

`voice-commander` is a push-to-talk daemon: a keybind starts a recording, the recording is
optionally transcribed, and the result is handed to callbacks. Which transcriber runs, if any,
and what happens with the result are both configuration.

## Layout

- `src/` is the library: every decision the daemon makes, with contracts that Verus proves. It
  reads no clock, opens no file and talks to no device; it is told what happened and says what
  to do about it.
  - `config/` layers, merges, resolves and judges configuration documents.
  - `recorder.rs` and `engine.rs` are the session state machine and the capture engine around
    it; `audio/` holds the lookback window, the levels, the capture channel and the bookkeeping
    of rate conversion.
  - `session/`, `tokens.rs`, `storage.rs`, `stats.rs` and `retention.rs` say what is written
    down about a session, where, and what is made of it later.
  - `event.rs`, `feedback.rs`, `presenters.rs`, `pipeline.rs`, `fanout.rs`, `retry.rs` and
    `command.rs` are the way from a finished recording to the callbacks, and what is shown
    meanwhile.
  - `protocol.rs`, `listener.rs`, `client.rs` and `state.rs` are the control socket.
- `app/` is the program around it: devices, files, sockets, processes, clocks, floating-point
  arithmetic and serialisation.
- `tests/` runs the library on concrete values.

Samples and levels are single-precision numbers. The library carries them as bit patterns and
only compares them; measuring and converting them is up to the program.

## Trust

What the proofs rest on is marked in the source with `Trusted:`: a few functions of the standard
library, and the crates `rtrb`, `serde_json`, `time` and `toml`. Each such item says what is
claimed of the function it calls, and what is left unsaid.
