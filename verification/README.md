# bi2read

Turns a Bilibili video into a transcript, a readable Markdown document and, with a model on the
same machine, a faithful text, summaries, highlights and chapters that can be followed back to
what was said.

- `src/` is the library. Every function states what it returns in `requires` and `ensures`, and
  Verus proves it. What holds across functions stands as public `proof fn`s beside them.
- `src/content_results/` makes, checks and keeps the texts; `src/desktop/` decides what the window
  shows and does; `bilibili`, `funasr`, `document`, `presentation`, `config` and `cli` hold the
  rules of the parts they are named after.
- `app/` reads and writes files, runs processes, asks the model over HTTP and parses the command
  line. It hands the library plain values and carries out what the library decides.
- `tests/` runs the library with the outside crates linked.

A few calls into outside crates (hashing, URL and JSON parsing, Unicode case, time spelling)
stand behind small wrappers whose contracts Verus takes as given. Each says in its doc comment
what it claims.
