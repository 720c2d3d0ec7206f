# dot_mailbox

The mailbox 0 side of the DOT override challenge/response exchange of an
MCU ROM: message formats, the mailbox checksum, and the transport that keeps
a challenge request open until it is answered.

- `src/` is verified with Verus.
  - `wire.rs`: little-endian byte views of 32-bit words.
  - `mailbox_messages.rs`: command codes, the request layouts and how they
    are read from SRAM words.
  - `mbox0_helpers.rs`: mailbox sessions, the checksum rule, request
    checks, and the register writes that end a session.
  - `dot_override.rs`: the transport state machine.
- `app/` binds the library to the mailbox registers (waiting for commands,
  reading the SRAM, performing the writes) and gives byte views of the
  messages through `zerocopy`.
- `tests/` runs the library on concrete messages.
