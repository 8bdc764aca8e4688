# crabsoup

The library behind the crabsoup Lua runtime for building web sites, verified with Verus.

- `src/` — the verified library: class lists of HTML elements, the text of HTML trees,
  slugs, CSS escaping, paths, dates and time zones, process life cycles, URL, HTML and
  Base64 encodings, CSV records, digests, regular expressions and character encodings.
  Calls into outside crates (`chrono`, `regex`, `typed-path`, `csv`, `encoding_rs`, ...)
  go through small trusted wrappers whose contracts say what those crates document.
- `app/` — the Lua side: the tables of functions that scripts see, built with `mlua`
  around the library, and everything that touches files, processes or the terminal.
- `tests/` — tests of the library on concrete values.
