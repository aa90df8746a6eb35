# wattch

The verified core of wattch, a local RAPL energy-measurement daemon
(`rapl-wattchd`) and its command line (`wattch`), which talk protobuf over a
Unix socket in length-prefixed frames.

- `src/` is the library, verified with Verus: frame encoding and checking,
  the configuration file and duration grammars, source validation and
  selection, the daemon's request decisions, replies and stream bookkeeping,
  the CLI's reactions to stream and run events, powercap zone numbering, and the CSV,
  JSON and table renderings of sources.
- `app/` is the program around it: sockets, files, environment, the clap
  command line, prost message encoding, and everything that computes with
  floating-point energy and power (samples, deltas, summaries). Invoked as
  `rapl-wattchd` it runs the daemon, otherwise the CLI.
- `tests/` exercises the library.
