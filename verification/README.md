# cfst

The decisions of a speed test for Cloudflare's edge addresses, written and proved in Verus.

A latency test pings many addresses and keeps those whose delay and loss are within the bounds. A
download test then measures how fast the best of them are, until enough of them are fast enough and
in a data center that is wanted.

## Layout

- `src/` holds the library. It does no input or output: it says what has to be done next, is told
  what came of it, and decides what follows.
  - `common`: results, data center filters, what is kept
  - `ping_loop`, `ping_run`: pinging one address several times, and many addresses at a time
  - `tcping`, `icmp`, `httping`: what differs between the ways of pinging
  - `speed`, `transfer`, `download`: the shown speed, one download, and a series of downloads
  - `sort`: putting results in the order of their scores
  - `single`: single-precision numbers, which are carried and compared but not computed with
  - `text`, `addr`, `args`, `progress`: what the others are written with
  - `outside`: what is taken from the `http` crate and from the clock, on trust
- `app/` runs the tests: sockets, HTTP clients, tasks, timers, and the arithmetic of delays, speeds
  and scores, which is done in floating point.
- `tests/` runs the library on concrete values.
