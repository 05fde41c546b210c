# dctp

A verified implementation of DCTP, the framed binary protocol between a
tuning workbench and a vehicle controller, together with a simulated device
and the decisions of the desktop bridge. Every function in `src/` carries a
Verus contract and is proved against it.

## Layout

- `src/` — the library, verified by Verus.
  - `bytes`, `checksum`, `cobs`, `codec`, `frame`, `stream`: byte order,
    CRC-32, COBS framing, frame encoding and the stream decoder that
    resynchronises on delimiters.
  - `wire`, `messages`, `parameter`, `descriptor`, `manifest`, `telemetry`,
    `transfer`, `flash`, `log`: the payloads of each message type, with
    round-trip laws for every encoder and decoder.
  - `sorting`, `text`: canonical ordering and text helpers used above.
  - `sim/`: the simulated device — sessions, the request cache, parameter
    reads, writes and commits, the manifest transfer, telemetry scheduling,
    the priority transmit queue and fault injection — with its laws
    (`sessions`, `persistence`, `drop_report`).
  - `vectors`: the reference vectors and their digest index.
  - `desktop/`: the bridge's checks and decisions — AI completion requests,
    completed core operations, frontend event numbering, window closing with
    uncommitted changes, and firmware flashing runs.
- `tests/` — executable tests of the library.
- `app/` — the simulator program: argument handling, the TCP server, the
  floating-point speed loop, and writing or checking the vector files.

## Trusted boundary

The library calls three outside functions through trusted wrappers, each
documented where it is declared: UTF-8 validation from `core::str`, SHA-256
from the `sha2` crate, and UUID parsing from the `uuid` crate.
