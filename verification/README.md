# profinet_rs

A PROFINET IO controller library. Its frame codecs, record parsers and state
machines are written in Verus and proved against their contracts; sockets, packet
capture, threads and the command line stand around it in ordinary Rust.

## Layout

`src/` is the library.

- Bytes and text: `bytes`, `text`, `util`, `json`, `lines`.
- Frames and records: `dcp`, `rpc`, `blocks`, `rt`, `rawudp`, `alarms`,
  `diagnosis`, `im`, `epm`, `connect`, `records`, with the tables in `indices` and
  `errors`.
- Requests and answers: `transport` says what a connection needs from the network,
  `connection` makes the calls on an AR, `raw_l2` carries them in raw Ethernet
  frames, `replay` dials and answers from memory, `device` puts a device behind one type.
- State machines: `alarm_listener`, `cyclic`, `control`, `takeover`, `serve`,
  `shutdown`, and `serve_run`, which puts the last two together into a process from
  its first turn to its exit. Each takes an event and gives what is to be done next. None of them
  waits, sends or reads a clock.
- The command line's rules: `cli`, `commands`, `requests`, `tier`, `line_reader`,
  `pcap`, `capture_check`.

`tests/` runs the library on concrete frames, records and sessions.

`app/` is the `profinet` program: argument handling, packet capture, UDP sockets,
threads and the loops that carry out what the state machines decide.

## Reading the contracts

Every type has a view or plain public fields, and every function's `ensures` is
stated over them. What holds of several functions together stands as a public
proof function next to them, with the law in its doc comment. The calls into other
crates are in `text`, `cli`, `json`, `line_reader` and `random`; each has a doc
comment that says what is taken for granted.

## Limits

A device description (GSDML) is not read: a layout of slots comes from the
caller. Vendor names are an argument as well.
