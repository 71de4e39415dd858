# Cogfer

A verified library for calling LLMs through one typed request model, stream
contract, and error taxonomy.

- `src/` is the library: requests, their validation and lowering to the wire
  formats of the providers, the decoding of responses and streams, framing, and
  the terminal contract of event streams. Every function states what it returns,
  and Verus proves it. Laws that relate several functions are public proof
  functions beside them.
- `app/` is ordinary Rust around the library: clients, transports, authenticators
  that refresh tokens, and logging.
- `tests/` runs the library.

What the library takes from other crates (JSON text, header maps, URLs, base64,
UUIDs, AWS event stream messages) it calls through small functions whose doc
comments say what is claimed of each call.
