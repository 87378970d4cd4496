# signal_generator

An industrial signal generator: simulated sensor signals published to MQTT
as flat JSON-LD arrays, a REST API to manage the generators, and a web page
with live panels.

The crate is split in two:

- `src/` is the library, verified with Verus. It holds the broker and
  generator settings and the topics derived from them, the layout of the
  signal and diagnostics payloads, the generator registry operations behind
  the API (create, update, delete, toggle, import, broker settings update),
  authorization, the broker metrics parsed from `$SYS` topics and their
  bounded history, the per-generator value history, the live-view diffing
  and its tick schedule, the server-side panel page and panel markup, the
  MQTT session settings and event-loop decisions, and the decisions of the
  supervisor that starts and stops generator tasks.
- `app/` is the service around it: the actix-web server and WebSocket
  endpoint, the rumqttc client, file persistence, JSON (serde) copies of the
  library types, and the floating-point signal simulation.

Analog values are a type parameter `F` of the library types; the service
instantiates it with `f64`.
