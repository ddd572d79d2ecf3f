# stg_tui

A terminal interface for StGit patch stacks. The library holds its logic,
verified with Verus; `app/` is the terminal front end.

- `src/text.rs`: lines, trimming, substring search and decimal numbers over
  characters, with the meaning std gives them.
- `src/stgit.rs`: the stack model (patches, changed files, branch), the
  parsers of `stg`/`git` output, and the command lines of every operation.
- `src/app.rs`: the application state, the list of lines it shows, and its
  invariant; reloading and reporting operations.
- `src/keys.rs`: the key map, what each key does in each mode, and the
  outside work (commands, output to read, reloads) it asks for.
- `src/ui.rs`: the text and styles of each line of the screen.
- `src/laws.rs`: properties spanning several steps.
- `app/`: runs the commands, reads the keyboard and draws with ratatui.
