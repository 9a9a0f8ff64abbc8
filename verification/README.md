# nirinit

Saves the windows of a running [niri](https://github.com/YaLTeR/niri) session
and brings them back at the next start.

- `src/` is the library, verified with Verus: launch commands, what is saved of
  each window, the order in which windows are brought back, the steps of
  starting a program and placing its window, which programs are skipped, the
  course of the program between start and end, file places and log lines.
- `app/` is the program around it: command line, files, the compositor's
  socket, signals and the clock. Whatever takes turns between waiting on the
  outside and deciding is a state in the library that says what to do next
  (`task`) and takes how it went (`handle`).
- `tests/` runs the library on concrete values.

What is trusted rather than proved is marked `#[verifier::external_body]`: how
`anstyle` prints a foreground colour and its reset, and the call that sets the
maximum level of the `log` crate.
