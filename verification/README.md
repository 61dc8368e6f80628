# luo9_bot

The verified core of a QQ bot that speaks OneBot v11 to NapCat and hands
events to plugins over a message bus.

- `src/` is the library, verified with Verus: reading OneBot events from a
  JSON model, routing them to plugins in priority order, the plugin manager
  and its dispatch list, the plugin registry and install plans, the cron
  scheduler, configuration updates, the log buffer, and the request logic of
  the web UI.
- `tests/` runs the library on concrete values.
- `app/` is the program around it: the WebSocket connection, the plugin bus
  and native plugin runtime, the web server, file access, configuration
  files and serde conversions.
