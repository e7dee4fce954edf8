# Extender

Share USB devices over TCP/IP. A server puts devices of its host on offer; a
client imports them, over the USB/IP protocol, and drives them as if they were
its own.

The library under `src/` holds everything that is decided, parsed, framed or
formatted, with contracts that Verus proves. The program under `app/` reads the
command line, files, sockets and USB devices, and does what the library says.

## Layout

- `src/protocol/`: messages on the wire, and how they are read from a stream
- `src/server/`: the devices of this host, and the registry of those on offer
- `src/client/`: importing devices, the virtual ports of each platform, and the
  classes of devices (storage, network, audio, input, serial)
- `src/api/`: requests between the command line and the daemon
- `src/daemon/`: configuration, access lists, privileges, and the daemon's steps
- `src/cli/`: the commands and what they show
- `src/text.rs`, `src/scan.rs`, `src/endian.rs`: numerals, texts and byte orders
- `app/`: the program
- `tests/`: tests of the library

What the library takes from outside crates on trust stands in functions marked
`#[verifier::external_body]`; each says what it claims of the function it calls.
