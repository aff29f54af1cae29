# electrico

The core of a desktop runtime that runs Electron-style applications in system
webviews: the request routing of its two local HTTP servers, the ipc bookkeeping
between windows and the backend, the scripts it injects, the escaping it relies on,
and the decisions behind its node and electron APIs. Every function in `src/` is
verified with Verus against its `requires`/`ensures` contract, except the few small
wrappers marked `#[verifier::external_body]` that call std, `substring`, `urlencoding`,
`mime_guess` or `serde_json`: their contracts are trusted, and each says in its doc
comment what it claims of the call.

Layout:

- `src/text.rs` – character-level building blocks (search, split/join, replace,
  decimal digits, UTF-8 byte offsets) with their specifications.
- `src/common.rs` – escaping (with its round-trip laws), request path parsing,
  replies, bundled-file maps and file requests.
- `src/frontend.rs`, `src/backend.rs` – routing of window and backend requests,
  websocket framing, injected scripts, window bookkeeping.
- `src/ipcchannel.rs` – pending ipc requests and their expiry.
- `src/handles.rs` – the backend's tables of live handles (processes, connections, watchers).
- `src/dialog.rs`, `src/menu.rs`, `src/electron.rs`, `src/dispatch.rs` – electron API
  decisions (dialogs, menus and accelerators, app paths, ipc checks).
- `src/node.rs`, `src/fs_api.rs`, `src/http_api.rs`, `src/child_process.rs`,
  `src/addons.rs` – node API decisions.
- `src/*_types.rs`, `src/types.rs` – the command and message types.
- `app/` – the command line entry, file system access and the JSON forms of the types.
- `tests/` – tests of the library on concrete values.
