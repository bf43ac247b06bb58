# riptide

The verified core of the Riptide shell and of its script languages.

- `src/` is the library, verified with Verus: the command line buffer and
  the line editor's state machine, the terminal's input events and escape
  sequences, completion, themes, log levels, exit codes, history entries,
  the S-expression parsers, the byte lexer, the runtime values, and the
  interpreter's decisions (name resolution, argument binding, tail calls,
  the interactive loop's steps) and the builtins that compute on their
  arguments.
- `tests/` runs the library on concrete inputs.
- `app/` is the program around it: options, logging to standard error, raw
  terminal I/O, the SQLite history, reading files, Ctrl-C, and the
  evaluation loop with the builtins that act on the process and external
  commands.
