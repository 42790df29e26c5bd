# lattice

The decisions of the Lattice file manager's interface, written in Verus and
proved against their contracts: how sizes, paths, titles and labels are shown;
which name a new or copied file gets; how listings are filtered and sorted;
what a keyboard shortcut, a sidebar click or a start-up request leads to; how
a copy, move, trash or rename batch proceeds; how duplicates and disk usage
are found; and what the picker, the tag filter and the convert panel show.

Layout:

- `src/` — the verified library, one module per concern (`text`, `path` and
  `number` hold the string, path and decimal models the others build on).
- `tests/` — tests run against the compiled library.
- `app/` — what stays outside verification: reading folders and files, the
  environment, GIO and GLib calls, and values drawn as floating point. It
  hands the library plain values and takes plain values back.
