# gateway

An IoT sensor gateway: it subscribes to `garden/sensors/#` on an MQTT broker,
decodes each message as a protobuf `SensorReading`, and stores the reading in
SQLite.

- `src/` is the verified library (Verus):
  - `wire.rs`: the protobuf wire format; the primitive reads are prost's, with
    contracts over spec functions, and the matching encodings with round-trip
    lemmas;
  - `sensor_parser.rs`: the `SensorReading` message (`string id = 1;
    SensorType type = 2; double value = 3;`), its decoder, and the conversion
    into a `SensorData`; the laws that a reading encoded with all its fields,
    or as proto3 writes it, decodes back;
  - `domain.rs`, `error.rs`: sensor types, ids, readings and errors;
  - `config.rs`: settings, their defaults and sources;
  - `mqtt_handler.rs`, `mqtt_listener.rs`, `reconnect.rs`,
    `sqlite_repository.rs`: the decisions of message handling, of the event
    loop and of reconnection (with the back-off laws), and the stored row.
- `app/` is the program around it: settings files and environment, the MQTT
  client, the SQLite pool and the async runtime.
- `tests/` exercises the library with real protobuf encodings from prost.
