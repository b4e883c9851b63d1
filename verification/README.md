# dialog_core

The scripting contract of a swiftDialog-compatible dialog utility, as a
verified library: the option table and command-line parser, JSON input,
the initial dialog state, the command-file protocol, user-input validation
(with a small anchored regex matcher), icon source resolution, and the exit
output that scripts parse. Every function in `src/` carries a contract, and
Verus proves each one except the small wrappers around outside code, whose
contracts are trusted: `text::to_lowercase` (`str::to_lowercase`),
`text::push_char` (`String::push`), `icon::char_from` (`char::from_u32`),
`icon::decode_utf8` (`std::str::from_utf8`), `icon::encode_base64` (the
`base64` crate's standard engine), `config::parse_json_text` with
`config::json_of_value` (`serde_json::from_str`, copied into the library's
`Json`), and `output::render_json` with `output::json_of_output`
(`serde_json::to_string_pretty` of the `--json` object). `src/laws.rs`
states properties of the library as a whole.

Layout:

- `src/` — the verified library.
- `tests/` — scenario tests, run against the compiled library.
- `app/` — the binary around it: argument and file I/O (reading the
  `--jsonfile` text, printing the exit payload), icon downloads, the
  command-file watcher, and the Tauri window.

Numeric option values (window sizes, icon size and alpha, progress, timer
seconds) are `Decimal`s: thousandths, read from the decimal notation that
`f64` parsing takes, exponents included (`1e3`, `2.5E-1`), and cut toward
zero at the third decimal. `inf`, `nan` and magnitudes above
9 000 000 000 000 000 have no `Decimal` and are refused like other malformed
numbers. The app converts values to `f64` for the window.
