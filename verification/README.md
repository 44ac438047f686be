# ferricast

Casting a screen to AirPlay and Chromecast receivers, and being a Chromecast
receiver. What is sent, answered, kept and decided is a library verified with
Verus; the sockets, tasks and devices around it are ordinary Rust.

- `src/airplay`: discovery, RTSP requests and responses, TLV messages, pairing
  with and without a PIN, and the rules of a session.
- `src/chromecast`: the control channel with its messages and framing, live
  streaming, mirroring with its RTP packets, discovery, and the receiver's side
  under `receiver`.
- `src/capture`: which back end captures, which formats and buffers are agreed
  on, what happens to each frame, and how monitors, windows and thumbnails are
  listed and made.
- `src/crypto.rs` and the small wrappers next to their callers: the calls into
  other crates, each with what is relied on.
- `src/octets.rs`, `src/text.rs`, `src/text_map.rs`: bytes, text and maps keyed
  by text.
- `app`: the network, the compositor, the X server, PipeWire and Vulkan.
- `tests`: the library run on concrete values, with the other crates linked.
