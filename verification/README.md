# acrylius

Links a phone and a Linux computer over a local network, Bluetooth or a cable:
lock and unlock the desktop, wake it, share the clipboard, drive its media
players, run commands it has offered, send files, and use the phone as its
touchpad.

`src/` is the library, written in Verus. Every function in it is proved against
its contract, but for the small wrappers around calls into other crates and the
standard library: each is marked `external_body`, and its contract is taken from
what the other side documents.

- `engine` is the core: a state machine from events to actions that never touches
  the world. `engine::model` says what each event does to the state, as spec
  functions; `engine::laws`, `engine::promises`, `engine::sessions` and
  `engine::timers` state and prove what holds of every step. `engine::asking` and
  `engine::answering` do so for a core with the features below: what its host can
  be asked for, and what it does when it is asked.
- `noise` wraps `snow`: pairing handshakes, session handshakes, sessions.
- `plugin` and `plugins` are the features, each as a protocol over the core;
  `plugins::stock` is how a core keeps one and still knows which it is.
- `body` and `cbor` are the bodies of messages, written and read with `minicbor`.
- `linux` is what a desktop decides: sessions, players, the touchpad's frames,
  magic packets, the Bluetooth and USB transports.
- `ffi` is the core as a host in another language sees it.
- `table`, `text` and `words` are sorted tables and plain text.

The shape of frames, envelopes and hellos, and the digits people compare, belong
to the wire format. The core asks for them through the trait `wire::Wire`, of
which nothing is promised.

`app/` is what talks to buses, sockets, devices and files: the Linux effectors and
transports, and the bindings for a phone. `tests/` runs the library with the real
`snow` and `minicbor`.
