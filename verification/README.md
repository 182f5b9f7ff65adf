# comfyui_openai_api

A proxy that offers the OpenAI image generation API (`/v1/images/generations`) on top of a ComfyUI
backend. What the proxy decides and computes is a library that is verified with Verus; the server
around it is ordinary Rust.

- `src/payload.rs`: a request is translated into the workflow that it names.
- `src/session.rs`: the course of a request, as a state machine that says what to do next.
- `src/history.rs`: the backend's queue, its history, and the answer with the images.
- `src/ws.rs`: jobs whose completion the backend told over the WebSocket.
- `src/workflows.rs`: the workflows and how they are loaded from a folder.
- `src/proxy.rs`, `src/config.rs`, `src/headers.rs`: errors, configuration, HTTP headers.
- `src/json.rs`, `src/document.rs`, `src/encoding.rs`, `src/text.rs`: JSON documents, Base64, form
  encoding and text, with the calls into `serde_json`, `base64` and `serde_urlencoded`.
- `app/`: the server, the HTTP client, the WebSocket connection and the files.
- `tests/`: the library on concrete values, with the outside crates linked.

Functions marked `#[verifier::external_body]` call an outside crate; their contracts are trusted.
