# phos_remoting

The remoting layer of PhoenixOS (PhOS): how a CUDA application's calls are
carried from the client process to the server that owns the GPU, and how
what the server received is kept so that it can be replayed on restore.

The library in `src/` is verified with Verus:

- `ring`, `local`: a ring buffer laid out after a meta area, used as a byte
  channel; bytes come out in the order they went in, and a channel never
  holds more than its capacity less one byte.
- `wire`, `transport`: how values and arrays of values travel (little-endian,
  arrays count first) and the sending and receiving ends built on any byte
  channel.
- `session`: one call's worth of sending or receiving, with the server side
  saving what it received; `restore`: replaying saved bytes, and a sink that
  discards.
- `hook`, `plan`, `stub`: how a hooked API's parameters are classified
  from their attributes and types, what client and server do with each
  parameter, and the whole sequence of steps of the client's and the
  server's stub for a call (sends, receives, room for outputs, the
  arguments passed to the call, what is kept for replay, the hook's own
  extra items), with the law that the two stubs agree on the wire;
  `cuda` declares the driver's kernel launch in that model.
- `cache`, `runtime`, `fatbin`, `handle`: what the client records about
  modules, kernels and registrations, kernel argument packing, and the
  handles it hands out.
- `timer`, `config`: measurement tables and the configuration types.
- `laws`: properties that relate several of the above.

`app/` holds the command-line tool and the parts that talk to the operating
system: shared memory, CRIU, the out-of-band RPC service, configuration
files and cycle counting.
