# commitlog

The state and the rules of a commit log view, written in Rust and proved with Verus: which commits
a list holds, which of them is selected, marked or highlighted, which part of them is loaded, what
the rows of the view show, how keys move through it, how a repository is walked in batches, how the
branch graph is drawn a section at a time, and what is done for each event.

- `src/` is the library. Contracts are stated over sequences, maps and integers; laws that relate
  several functions are the public proof functions named `law_..`.
- `src/index_set.rs`, `src/ansi.rs` and `src/tracks.rs` hold what is taken on trust: the contracts
  of the `indexmap`, `ansi-to-tui`, `git2` and `gleisbau` calls that the library makes.
- `tests/` runs the library on concrete values.
- `app/` is a terminal program around the library. It reads the repository and the keys, draws what
  the library says, and keeps the speed of scrolling, which is a floating-point number.
