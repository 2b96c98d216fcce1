# rustools-mcp

An MCP server that helps AI assistants work with Rust: it looks up crates on
crates.io, reads their documentation on docs.rs, explains compiler error codes and
Rust Book concepts, runs cargo, and analyses a local project. Answers are cached
per crate on disk.

## Layout

- `src/` is the library, verified with Verus. It holds the decisions and the text
  the tools produce: which page or request a tool needs, which part of a page is read
  and what is made of its Markdown,
  how cache keys are stored and read back, the module overview of a crate, the
  feature-flag and search reports, the project analysis and its report, the tool
  catalogue and the protocol errors.
  - `text.rs`: string helpers with their specifications.
  - `docs_parser.rs`: documentation requests and pages.
  - `modules_overview.rs`: a crate's items by category.
  - `cache.rs`: the cache and its on-disk form.
  - `tools.rs`: each tool's request step and the recording of fetched answers.
  - `mcp.rs`: the tool names, the catalogue and the protocol errors.
  - `context_engine.rs`: project analysis.
  - `cargo_tools.rs`, `rust_book.rs`, `error_index.rs`, `config.rs`, `web_ui.rs`.
- `app/` is the program around it: the command line, HTTP and standard-I/O
  serving, network requests, files, processes, the dashboard, and the HTML-to-Markdown
  rendering (html2md can panic on some markup, and the program catches that).
- `tests/` exercises the library.
