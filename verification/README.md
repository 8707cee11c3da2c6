# LibreFork

The logic of a small Git client for GTK, verified with Verus.

- `src/` is the verified library: the commit graph of the history list, the
  search over commits, the context menu and what its actions ask for, the
  records built from what libgit2 reports (commit ids, dates, references,
  stash labels, diff rows, credential order), the texts of the details pane
  and the status bar, the open tabs and pages of history, the favourites and
  the side panel tree.
- `app/` is the GTK window around it: it reads the repository with libgit2,
  keeps recent repositories and favourites in SQLite, draws the graph, and hands
  the library plain values.
- `tests/` runs the library on concrete values.

The favourites and the per-repository page counts are kept in vectors, with
the invariant that no item or key occurs twice, where a hash set and a hash map
would hold them. vstd specifies `HashSet` and `HashMap` only for key types whose
hashing and equality it models: its contracts for their operations hold under
`obeys_key_model::<K>()`, which vstd establishes for integers, `bool` and boxes
of them only. Verus accepts a `HashSet<StarredItem>` or a `HashMap<String, usize>`,
but for these key types nothing can be proved of what they hold without assuming
that fact, so the library keeps the contents in vectors and proves what the set
and the map would give.
