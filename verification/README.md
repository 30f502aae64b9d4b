# DeMoD BT

The data plane of a Bluetooth audio sink and source, verified with Verus.

`src/` is the library. It holds the framing of packets (`dcf`, `wire`), the codec layer
with the concealment of lost frames (`codec`, `sbc_ffi`, `lc3_ffi`), the ring buffer and
the audio pipeline (`ring`, `transport`), what the audio callbacks and Bluetooth threads do
(`engine`), codec negotiation (`bluez`), the orchestrator's state machine (`runtime`),
compatibility rules (`compat`), remote control (`avrcp`), the socket for user interfaces
(`dcf_server`), MIDI framing (`ble_midi`), audio utilities (`audio`) and what crosses the C
interface (`ffi`).

`app/` is the daemon around it: the bus, audio devices, sockets, threads, the system's codec
libraries and the C interface itself. Everything that app/ learns from them goes to the
library as plain values, and the library answers with what to do next.

`tests/` runs the library on concrete values.

What is believed without proof stands in few places: `wire` (byteorder), `ring` (rtrb),
`clock` (the system clock), `text` and `dcf_server` (string functions of the standard
library). Each such function says in its comment what is claimed of the call it makes.
