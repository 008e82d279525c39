# intercom

A low-latency voice intercom: a server hosts a room with talk channels,
clients join it, subscribe to channels and talk on one of them.

- `src/` is the verified library (Verus): identifiers and the wire format of
  audio packets, base64, the protocol messages and error codes, the session
  state of rooms, users and channels, the jitter buffer and the routing of
  streams in the mixer, voice-gate hysteresis, AES-GCM framing with counter
  nonces, device selection, signaling URLs and inbox messages, and the
  client and server state. Each public function carries a contract; the laws
  that relate several functions are public proof functions (`law_*`).
- `tests/` runs the library on concrete values.
- `app/` is the unverified runtime around it: audio I/O through cpal, the
  Opus codec through audiopus, floating-point mixing and resampling, serde
  forms of the messages, Firebase signaling over HTTP, and UniFFI bindings.
