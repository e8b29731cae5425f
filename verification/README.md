# English2Anki

Looks up English words in a dictionary source (the ECDICT word list, an
offline mock dictionary, the Free Dictionary API, or an OpenAI-compatible
chat service), keeps the results as JSON, and exports them as Anki cards in
UTF-8 TSV or CSV.

- `src/` is the verified library: text handling (`text`), the entries
  (`models`), the Anki export (`anki`), the interface's texts, settings and
  query progress (`app`), and what each dictionary source makes of its data
  (`providers`). Every function carries its contract and Verus proves it,
  except the few `#[verifier::external_body]` wrappers that call `csv`,
  `serde_json`, `chrono` and std (lower-casing, `String::push`, the system
  clock): their contracts are trusted, not proved, and each one's doc
  comment says what it claims of the call.
- `app/` is the desktop program around it: the egui window, files, the
  network, environment variables and the serde copies of the library's types.
- `tests/` runs the library on concrete values.
