# jobpipe

The rules of a job-posting pipeline, verified with Verus: cleaning up postings,
detecting which job board a company uses, choosing what to score and what to
show, and tracking applications.

- `src/` is the library. It performs no I/O: it takes rows, texts and points in
  time, and gives back rows, decisions and texts. Every function states what it
  returns, and the modules named `laws`, `layout`, `shapes`, `plain` and
  `wrapping` hold what is promised of several of them together.
- `app/` is the program around it: the command line, the database, HTTP and the
  terminal.
- `tests/` runs the library on concrete values.

What the library takes from outside (HTML character references, regular
expressions, calendar arithmetic, JSON strings, Unicode case mappings) stands
behind small functions whose contracts are stated and not proved; each says so in
its doc comment.

The program names the scoring model by the `JOBPIPE_MODEL` variable and reads the
key for it from `ANTHROPIC_API_KEY`. Both are needed only where postings are sent
to be scored: a dry run does without them. The costs that it prints are those of a
small, fast model.
