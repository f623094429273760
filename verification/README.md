# waves

A rule-driven survival world that an external agent plays through a small
decision protocol, watched by a human in a terminal observer.

- `src/` is the verified library (Verus): the world vocabulary, the decision
  gate of a run and its bookkeeping, localisation lookup, scenario
  configuration checks and hashing, the daemon's request vocabulary, the agent
  protocol's replies and compact tool outputs, the replay report, and terminal
  text layout. Every function there carries a contract. Verus proves them all
  except those of the few trusted wrappers around outside crates and std
  (terminal width, grapheme segmentation, CSV reading, `{:?}` quoting,
  `String::push`, channel receive, absolute paths), whose doc comments say
  what they claim.
- `app/` is the `waves` program around it: the command line, reading scenario
  files, the sea survival rules (fractional stats and random draws), the SQLite
  store, the Unix-socket daemon, the stdio agent bridge and the ratatui
  observer.
- `tests/` exercises the library on concrete values.

Scenarios are read from `scenarios/<id>/` (a `scenario.toml` manifest with CSV
tables and locale files).
