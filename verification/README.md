# rust_samples

A verified library behind a set of small sample programs: a dotted-key
template engine, decisions of a few HTTP services, and some text tools.

- `src/` is the library, written in Verus. Every function there carries a
  contract; Verus proves it, except for the few small functions marked
  `external_body` that make a call into another crate or into std, whose
  contracts are trusted and whose doc comments say what they claim.
  - `nano`, `template_value`, `placeholder`, `keys`, `assoc`: template data
    addressed by dotted keys, and the rendering of `{key}` placeholders
    (placeholders are found with the `regex` crate).
  - `iron_service`, `hello_service`, `clock`, `random_entry`: authentication,
    sessions, request ids, timestamps and response bodies of the web samples.
  - `line_reader`: the header reader of the raw TCP sample, as a state machine.
  - `proxy_config`, `config_lines`, `downcast`, `tasks`, `base_rune`,
    `markdown_page`, `text`: the remaining samples' logic and shared helpers.
- `app/` holds the programs themselves (servers, command lines, printing):
  `app <sample>` runs one of them.
- `tests/` exercises the library with the real outside crates linked.
