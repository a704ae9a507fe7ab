# chargecap

A battery charge limiter for MacBooks that stay plugged in. It stops charging
at 80% (or another limit) and starts again a couple of points below, to reduce
battery wear. A root daemon, `chargecapd`, talks to the SMC; the menu-bar app,
`chargecap`, talks to the daemon over a Unix socket.

The library holds what is decided and computed, written in Verus: every function
has a contract, and what holds of several functions together is stated and
proved as a law (a public `proof fn`). The programs around it do the I/O.

## Layout

| Path | What it holds |
|---|---|
| `src/proto.rs` | requests, replies, limits, one line of the wire |
| `src/text.rs` | numbers, white space, fields, prefixes |
| `src/paths.rs` | where sockets and files live |
| `src/smc/` | packets, key codes, the typed SMC operations, the mock, `smcctl` |
| `src/daemon/` | the control loop, the daemon's state, install steps, log lines |
| `src/menubar/` | labels, menu, session, versions, updates, launch at login |
| `tests/` | tests on concrete values |
| `app/` | the programs: `chargecapd`, `chargecap`, `smcctl`, `fake-daemon` |

## How the SMC is modelled

A driver keeps a log of round trips, for proofs alone. What an operation sends
and returns is a function of the replies in that log (`smc::run`), so each
contract covers every SMC, whatever it answers. `smc::memory` describes an SMC
that keeps what it is told, and `smc::recall` what reads and writes give there.

A driver may also say how a round trip changes it, and every operation hands on
that nothing but round trips did. For the mock this is enough to prove that it
keeps what it is told, so that `smc::readback` states what an SMC over the mock
gives back with no assumption about its answers.

## Trusted

Three items are believed without proof, all in `src/text.rs`: `String::push`,
`format!` with `{:?}` on a `str`, and `String::from_utf8_lossy`.
