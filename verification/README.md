# iec104

Streams over IEC 60870-5-104, the grid's telecontrol protocol: the controlled
station that takes I frames in sequence and acknowledges each, and the
controlling station that sends one at a time. The library is verified with
Verus; it holds no socket.

- `src/apci.rs`: the APDU on the wire, encoded and read, whole or step by step.
- `src/station.rs`, `src/controller.rs`: what either station does on an APDU,
  and with all that comes in on a connection.
- `src/transport.rs`: whole conversations from either end.
- `src/laws.rs`: what holds of the stations and their frames together, up to
  this: connected to each other they carry a Stream of any length whole.
- `src/text.rs`, `src/error.rs`: numbers as text, and what goes wrong.
- `app/`: the stations on TCP connections, for the crate `transport`.
- `tests/`: the library on concrete bytes.
