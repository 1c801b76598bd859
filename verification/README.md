# cyclone_dds_ws_bridge

A WebSocket bridge for Eclipse Cyclone DDS. Clients publish and subscribe to DDS
topics over a binary WebSocket protocol; payloads pass through as opaque bytes.

`src/` is the library, verified with Verus:

- `protocol`, `qos`: messages and QoS policies, with laws that what is written
  is read back and that every encoding that is read is the one that is written
- `dds`: topics, the registries of readers and writers, what is set on entities
  for each policy, and opaque types with their keys, digests and hashes
- `bridge`: what is made of each request, fan-out, bounded session buffers, and
  the laws of the bridge as a whole
- `ws`, `cli`, `config`: frames, the server's decisions, the command line and
  the settings
- `wire`, `text`, `assoc`: integers in bytes, text, an association list

The library makes no DDS calls. A request becomes an `Outcome`: an answer, or
something to do in DDS whose result is handed back.

`app/` is the program around it: the WebSocket server, the calls into Cyclone
DDS, the configuration file. `extras/opaque_type.c` is the C side of opaque
types. `tests/` runs the library.
