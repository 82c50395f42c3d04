# cosmic_term

The decision logic of a tabbed terminal emulator, verified with Verus.

- `src/` is the library. Each public function states what it returns, or how it
  changes its `&mut` arguments, in its `requires` and `ensures`. Properties that
  span several calls are public proof functions named `lemma_*`.
  - `action`: the actions, the requests they send, and the identifiers of
    their translated names.
  - `keys`, `keybinds`: parsing configured shortcuts, matching key presses,
    and the shortcut table.
  - `dialog`: the dialog for entering a shortcut, and recording a captured
    combination.
  - `tabs`, `panels`, `settings`, `themes`, `fonts`, `profiles`, `idmap`,
    `paste`, `cli`: tab navigation, side panels and search, settings
    choices, color scheme names, font selection, profiles, identifier maps,
    dropped paths, and the command line.
  - `text`: the text operations the rest is built on.
- `tests/`: tests of the library on concrete values.
- `app/`: the graphical application around the library. It reads events,
  passes plain values to the library, and carries out what the library returns.
