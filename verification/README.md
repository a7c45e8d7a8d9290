# biome_traverse

The decisions of a traversal of the Biome command line tool, written and
verified in Verus.

A traversal hands files to workers and collects what they send on one console
thread. The library decides what that thread does with each message, what is
printed and reported at the end, which paths are handled, and how the run ends.

- `src/processor.rs`: the console as a state machine, one event at a time.
- `src/finding.rs`: what one message adds to a run.
- `src/conclusion.rs`: how a run starts and how it ends.
- `src/handling.rs`: which paths are handled, and what becomes of a file.
- `src/output.rs`, `src/markup.rs`, `src/text.rs`: what is written.
- `src/report.rs`: the report of a run that does not print to the terminal.
- `src/laws.rs`: what holds of every run.
- `app/`: the threads, the channels, the file system and the console.
