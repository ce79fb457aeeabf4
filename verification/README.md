# havi_core

The core of `havi`, a deterministic HTML-to-video renderer that drives an
off-screen Chromium (CEF) against a virtual clock and pipes every frame to
ffmpeg. This crate holds the renderer's logic as Verus-verified Rust; the
program around it lives in `app/`.

## Layout

- `src/` — the verified library.
  - `text.rs` — the string model (`Seq<char>`), numerals, parsing, trimming,
    splitting and replacing, each with an exact specification.
  - `api.rs`, `cli.rs` — render options with their defaults, the command line
    of a render process, the output list.
  - `proxy.rs` — proxy rules compiled with `globset`: first match wins;
    block, redirect (literal-prefix rewrite) or mock responses.
  - `renderer/` — the capture state machine (two-signal frame gate, stall
    detection, watchdog), load phases, the host page and its stego stamp,
    the deterministic Chromium switches.
  - `cef/` — the DevTools channel (numbered calls, event handlers), in-memory
    responses, console forwarding, switch splitting, the send-event flag.
  - `video/` — `havi-frame://` URLs and routing, ffmpeg command lines, banner
    parsing, session ids and frame files.
  - `host/` — bookkeeping of a host running several renders: live renders,
    browser bindings, a first-in first-out queue behind a concurrency limit.
    The `havi` program runs one render per process and does not use this
    module: it is the bookkeeping of the multi-render host design that
    per-process rendering replaced, kept here as a verified library part.
  - `common/` — reports to the parent process, the registry of encoder pids.
  - `napi/` — how the JavaScript `render()` promise settles.
- `tests/` — executable tests of the library.
- `app/` — the `havi` program: CEF callbacks, processes, files, JSON and the
  Node binding, each delegating its decisions to the library.

The page scripts (`host_shim.js`, `iframe_hook.js`, `iframe_video_hook.js`,
`dom_ready_hook.js`) are read at run time from a `runtime/` directory beside
the executable.
