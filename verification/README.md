# stdecor

A stream decorator: every line of text gets a prefix, optionally led by the
current date and time, and long lines are wrapped to the terminal width so
that no decorated line is wider than the terminal (with a date: as long as
the stamp keeps the length it had at the start, which holds for all dates in
the years 1000 to 9999).

- `src/` is the verified library (Verus):
  - `decor.rs`: cutting a line into pieces (`LineWrapper`), the lead of a
    line, decorating a line (`decorate_line`, `Decor`), and the proved laws
    of wrapping and decorating;
  - `clock.rs`: the one call into `chrono` that reads the clock;
  - `runner.rs`: the decisions of the loop that runs a command and
    decorates its two output streams;
  - `decor_async.rs`, `writer_async.rs`: the text that the asynchronous
    writers write;
  - `cli.rs`: the command line.
- `app/` is the program: argument parsing, the terminal width, reading
  standard input or a child's output, polling and writing.
- `tests/` runs the library on concrete values.
