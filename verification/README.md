# poholos

A peer-to-peer mesh chat protocol that rides inside Bluetooth Low Energy
advertisements, written in Verus: the functions of the library state what they
do, and Verus proves it.

Nodes never connect. Each one advertises its own messages and relays those of
others, every hop lowers a message's time to live, and a cache of recently heard
messages keeps the flood from going in circles.

## Layout

- `src/` is the library. `src/lib.rs` lists its modules.
- `tests/` runs it on concrete values, with the outside crates linked.
- `app/` is the console chat (`app/main.rs`): arguments, standard input, UDP
  broadcast and the BLE radio. `app/firmware/` holds two programs for the BBC
  micro:bit v2, a relay with canned messages and a morse-code node.

## What is proved

- Decoding undoes encoding, encoding undoes decoding, and different packets
  have different frames (`src/wire.rs`).
- A message that arrives again while it is remembered is ignored, a relayed
  frame is the same message one hop on, and hearsay floods a line of nodes as
  far as its time to live reaches (`src/router.rs`).
- The caches remember the most recently heard messages and evict the stalest
  (`src/seen.rs`).
- The local user's message keeps half of the airtime whatever is relayed, and
  relays air in order and after a bounded wait (`src/rotation.rs`).
- A frame put into an advertisement or a service UUID is found there again
  (`src/advert.rs`).

What the library takes from outside crates stands behind small functions whose
contracts are taken on trust. Each says in its comment which outside function it
calls and what is claimed of it. They are in `src/advert.rs`, `src/codec.rs`,
`src/display.rs`, `src/morse.rs`, `src/seen.rs`, `src/text.rs` and
`src/trace.rs`.

## Dependencies

`dbus` is not used directly. It is listed for its `vendored` feature, with which
`bluer` and `btleplug` build where no D-Bus library is installed.
