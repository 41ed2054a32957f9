# multi-effect

A real-time audio effect daemon whose control logic is a library verified
with Verus.

- `src/` — the verified library `multi_effect`: the line protocol
  (`command`), MIDI decoding and encoding (`midi`), preset slots and the
  snapshot state machine (`preset`, `snapshot`), the looper transport
  (`looper`), parameter metadata and the override kernel (`bounds`,
  `device`, `meta_edit`), chain rules and routing (`chain`), harmonizer voice
  allocation (`voices`), settings patches (`settings`), JSON clean-up
  (`json`), a ring buffer and text helpers. Laws about these modules are
  public proof functions named `law_*`.
- `app/` — the daemon around it: audio I/O, the DSP (floating point), the
  configuration master, serial/TCP/WebSocket/MIDI transports, HTTP and
  logging.
- `tests/` — tests of the library on concrete values.
