# mediarr-core

Renames and organises movie and series files: it parses release names,
renders naming templates, finds the subtitles that belong to each video,
plans renames without clobbering existing files, records what was renamed
so that a batch can be undone, and watches folders for new arrivals.

## Layout

- `src/` — the library, verified with Verus. Every function states what it
  returns in `requires`/`ensures` over mathematical models (`Seq`, `Map`,
  views of the data types); properties that span several functions are
  stated and proved as `law_*` proof functions.
  - `text`, `numeric`, `unicode`, `paths`: characters, numbers and `/`-separated paths.
  - `parser`: release names into `MediaInfo` (through `hunch`), with folder context.
  - `template`: naming templates into relative paths.
  - `subtitle`: subtitle discovery, language and type detection, subtitle names.
  - `scanner`: scanning a file or a folder into proposals, conflict detection.
  - `renamer`: dry runs and the decisions of a rename run.
  - `history`: batch records and identifiers, undo eligibility and results.
  - `watcher`: the folder watcher's decisions (which events, de-duplication, what is logged).
  - `config`, `config_tree`: settings, defaults, per-watcher overrides, dotted keys.
  - `selection`, `args`, `output`: the command line's rules and markers.
  - `commands`, `desktop`: what the desktop front end's commands compute and check.
- `app/` — the `mediarr` command line: argument parsing, the file system,
  the SQLite history, the folder watcher's event loop and printing. It asks
  the library what to do and carries it out.
- `tests/` — tests of the library on concrete values.

The library never touches the disk: what it needs to know of it (directory
listings, which paths exist, file sizes) is handed to it as plain values,
and what it decides is handed back as plain values for `app/` to carry out.
