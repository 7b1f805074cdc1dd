# bark

Low latency multi-receiver synchronised audio streaming for local networks:
uncompressed 48 kHz stereo audio over UDP multicast.

The library in `src/` holds the logic of bark, verified by Verus. Its
functions carry contracts proved against their bodies. The exceptions are
the small trusted wrappers around outside calls in `clock` and `node`, whose
contracts are taken on trust, and the few functions that only read a clock,
the system's names or a random number (`clock_micros`, `SessionId::generate`,
`ReceiverId::generate`), which state what holds of every value they can
return, or nothing where any value can come back:

- `time`, `protocol`, `packet`: stream timing arithmetic and the wire format
  of every packet, with round-trip laws for both.
- `encode`, `source`: cutting captured audio into numbered, timestamped
  packets, and what a stream source answers on the network.
- `receive`, `playback`, `aggregate`, `status`: the receive queue, clock
  synchronisation, rate adjustment and the status a receiver reports.
- `takeover`: which of two competing streams a receiver follows.
- `ring`, `device`: the playback frame buffer, with the passes of a
  blocking write, and the choice of an audio device's stream configuration.
- `value`, `metrics`, `text`: Prometheus counters and gauges and their text.
- `node`, `report`, `board`: what each node reports about itself and the
  live statistics view built from the replies.
- `config`: the configuration file's settings as environment variables.
- `clock`: the system clocks and random identifiers.

`app/` is the program around it: command line, sockets, audio devices,
terminal output and the metrics server. `tests/` exercises the library.
