# ghbox

A terminal inbox that keeps the pull requests where the ball is in your
court on screen: comments that mention you *and* ask to merge in the same
comment, review requests, and any section you configure, with done-state
tracking.

## Layout

- `src/` — the library, verified with Verus. Each public function states
  what it returns in its contract; the laws of the library (ordering,
  done marks, stable ids, navigation, key bindings) are public proof
  functions beside the code they are about.
  - `config` — sections, columns, filters, theme, keybindings; the rules
    that turn a parsed config file into them, and validation.
  - `filter` — the comment filter (mention + merge keyword) and the
    command-filter protocol (ids out, error messages).
  - `github` — the GraphQL query for all sections and the reading of its
    reply; the `gh auth token` result.
  - `inbox` — rows per section: filter, done marks, order.
  - `order` — ordering by repository, newest first, ties kept in order.
  - `store` — the done marks and the schema version check.
  - `app` — the view's state and what keys do to it.
  - `ui` — texts and choices of the screen (cells, relative times, icons,
    widths, spinner, help line, tab position).
  - `item`, `types`, `text`, `pattern`, `error` — rows, the earlier item
    kinds, string helpers, regular expressions, errors.
- `app/` — the program: config file, GitHub over HTTP, command filters,
  the SQLite database and the terminal.
- `tests/` — tests of the library.
