# chartr_browser

The logic of the embedded Browser pane for Chartr, written in Verus: each
function carries a `requires`/`ensures` contract, and Verus proves the code
against it.

## Layout

- `src/` — the verified library.
  - `text.rs`: character-level helpers (trimming, searching, ASCII case, digits).
  - `address.rs`: what typed input opens (URL, localhost address or search),
    and which addresses a pane may load.
  - `encoding.rs`: standard base64, with the proof that decoding undoes it.
  - `pages.rs`: tab titles, per-pane state files, HTML escaping, the start and
    error pages, and the `data:` URLs that carry them.
  - `abi.rs`, `wire.rs`: the host interface's data and the engine protocol's
    framing.
  - `client.rs`, `runtime.rs`: the decisions of the shared engine helper
    (package, sandbox, request routing, keyboard shortcuts).
  - `browser.rs`: one pane as a state machine. Each call returns one effect
    (a web-view call, a host event, a save, a hand-off); the caller performs it
    and reports the outcome with `resume`.
- `tests/` — tests run against the compiled library.
- `app/` — the unverified shell: the C interface to the host, the engine
  process, CEF, X11, files and threads. It performs the effects that the
  library decides.

Calls into `url`, `base64`, `serde_json` and `std::path` go through a few
trusted wrappers in `src/`, each documented with what its contract assumes.

## Checking

Verus verifies `src/`; the tests in `tests/` run with the real outside crates
linked.
