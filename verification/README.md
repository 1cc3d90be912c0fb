# evict

A small issue tracker that lives beside a git working copy, with its logic
verified by Verus.

- `src/` is the verified library.
  - `src/evict/` keeps issues in the directory format: one directory per
    issue, with a timeline of comments and tag changes. Its `commands/`
    decide what each command of the tool does from its arguments and from
    what was read; `source/` finds issues written in source comments.
  - The modules directly under `src/` keep issues in the list format: all
    issues of a branch in one JSON list, each with its comments.
  - `fsm`, `text`, `clock` and `order` are shared: a small state machine,
    text primitives over `Seq<char>`, times from the `time` crate, and
    orders by time stamp.
- `app/` is the command-line tool: files, the terminal, the editor, git,
  and the JSON forms of the library's types (serde).
- `tests/` runs the library on concrete values.
