# txtbatch

Batch find/replace, repeat and insert-after over the text files of a
directory, working on raw bytes (no decoding), with previews of each change.

- `src/` is the verified library: the search for non-overlapping occurrences
  (`search`), edits and their application (`edit`), line previews (`diff`),
  the per-file decisions and summary of a pass (`batch`), configuration values
  (`config`), path display (`paths`), request checking (`request`), the
  directory and report lines of a command-line run (`report`), numbers as
  text (`text`), the state of the desktop form (`form`), and properties proved
  over all inputs (`laws`).
- `app/` is the program: argument parsing, the directory walk, file and
  environment access, printing, and the desktop window (`--gui`, or no
  subcommand), which draws the library's form state with egui.
- `tests/` exercises the library on concrete inputs.
