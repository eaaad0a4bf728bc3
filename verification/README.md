# bide

Blocks until a target is *stable*: N consecutive matching probes (ICMP echo).
A reply builds the streak and a miss resets it to zero; with `--down` the rule is
inverted. Exit status 0 on success, 1 when `--timeout` or `--max-tries` runs out,
2 for invalid arguments, 3 for resolution or socket errors, 130/143 on SIGINT/SIGTERM.

## Layout

- `src/` — the verified library:
  - `duration.rs`: a nanosecond-precision span of time;
  - `cli.rs`: the options, the duration syntax (`30`, `500ms`, `3s`, `2m`, `1h`) and the
    checks made before a run;
  - `target.rs`: plain hosts and `icmp://` URLs; reserved and unsupported schemes;
  - `icmp.rs`: the echo request, its RFC 1071 checksum, which replies answer it, and what
    each socket event means for a probe;
  - `output.rs`: the progress output for each verbosity;
  - `scheduler.rs`: a run as a state machine — the driver performs each command (read the
    clock, check signals, sleep, probe) and hands back the event; the invariant and the
    laws of a run (streak, resets, attempt budget, deadlines, ticks) are proved over its
    transition function;
  - `clock.rs`, `text.rs`, `probe.rs`: the monotonic clock's range, text building, probe
    outcomes.
- `app/` — the program: argument parsing, name resolution, signal handlers, the ICMP
  socket, the run loop, and the round-trip-time rendering (floating point).
- `tests/` — tests of the library.
