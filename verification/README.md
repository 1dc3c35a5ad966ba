# tiny-logs

A small logger for three destinations: the terminal, a log file and the system logger. It works
behind the macros of the `log` crate and writes on a task of its own, so that whoever logs does not
wait for a terminal or a disk.

- `src/` holds what the logger decides and the texts that it writes, verified with Verus.
- `app/` holds the work around it: files, the channel and the tasks of tokio, the connection to the
  system logger, and the `log::Log` implementation.
- `tests/` runs the library on concrete sessions.

The connection to the system logger is opened only for a filter other than `Off`.
