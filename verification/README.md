# granite-tools-api-demo

A chat client for an OpenAI-compatible endpoint whose model edits a workspace
through tool calls (`open`, `goto`, `create`, `write`, `scroll_up`,
`scroll_down`, `find_file`, `search_dir`, `search_file`, `edit`, `insert`,
`filemap`, `allow_outside`, `submit`). The tool logic is a verified Verus
library; the window, the web view and the disk are handled by a thin program
around it.

## Layout

- `src/` — the verified library.
  - `editor.rs` — the editor state (workspace, open file, 100-line window) and
    the workspace path guard (`resolve`).
  - `paths.rs` — lexical path normalization and rendering.
  - `glob.rs` — `*`/`?` file-name patterns.
  - `search.rs` — text search, binary-file skipping, the outline of a file.
  - `tools.rs` — the specification of every tool as a state machine.
  - `machine.rs` — `dispatch` and `resume`: a tool call runs as a sequence of
    steps, each either a reply or a file-system request for the caller.
  - `args.rs` — tool arguments as plain values.
  - `request.rs` — reading a tool request from the page and starting the call.
  - `config.rs`, `http.rs` — settings, page rendering, and the request
    parsing and response framing of the HTTP test interface.
  - `text.rs` — string models and helpers shared by the modules.
  - `laws.rs` — properties across operations: calls stay inside the
    workspace, failed calls leave the state alone, scrolling and inserting
    behave as documented, writing and opening agree.
- `tests/` — the tool tests (over an in-memory file system) and further
  behaviour, text, path and client tests.
- `app/` — the program: settings and prompt files, the file-system
  operations, the HTTP test interface's socket, and the window with its web
  view. The page (`chat.html`, `marked.min.js`) is read beside the
  executable at start-up.
