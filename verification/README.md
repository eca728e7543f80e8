# fan_controller

A controller for two ebm-papst RadiCal ventilation fans and a bypass relay on an RS-485 Modbus
bus, integrated with Home Assistant over MQTT. The logic is written in Verus and proved against
its contracts.

## Layout

- `src/` — the verified library.
  - `modbus/` — device and register addresses, request frames with their CRC, and how an answer
    is found and checked in what the bus returns.
  - `mqtt/` — MQTT 5 packets the controller sends and reads (CONNECT, CONNACK, PUBLISH,
    SUBSCRIBE, SUBACK, PINGREQ, PINGRESP, DISCONNECT), the variable byte integer, and the
    session decisions (what an incoming packet is, keep alive, acknowledgements).
  - `sensor/`, `sensor.rs` — decoding the fans' status and measurement registers, the JSON they
    are published as, and when a reading has settled after a change.
  - `controller/` — the decisions of the firmware's routines as state machines: commands from
    Home Assistant, the brain that turns them into fan and relay requests, retries on the bus,
    the display and LED animations, and the button.
  - `dhcp.rs`, `storage.rs`, `reset_cause.rs`, `set_point.rs`, `discovery.rs` and the rest —
    DHCP message reading, stored Wi-Fi credentials, reset causes, set points and Home Assistant
    discovery.
  - `trusted.rs` — the few calls into outside crates (`crc`, `heapless`) and into parts of std
    that the verifier has no contract for, each with the contract the library relies on.
- `tests/` — tests run against the compiled library.
- `app/` — a host program around the library: serial port and socket I/O, the routines' loops
  on tokio, serde for the discovery payload, and the floating point exponential distribution.

## Behaviour chosen where the firmware's code and its documentation differ

Where the firmware's code does something other than its documentation or the protocol it
implements asks for, the library follows the documentation:

- The wait between Modbus frames is 3.5 characters, 28 bits, rounded up.
- A variable byte integer is written into a buffer that holds it exactly.
- A packet cut short reports how many of its announced bytes are missing.
- CONNECT and SUBSCRIBE refuse a buffer smaller than the whole packet, remaining length
  included, and write nothing.
- A set point write is attempted three times.
- The string and binary properties of a CONNACK (reason string, assigned client identifier,
  response information, server reference, authentication method and data, and both strings of a
  user property) are stepped over by their two byte length, as MQTT 5 defines them. The firmware
  read these lengths as variable byte integers, which refuses, for example, a CONNACK that carries
  a reason string; the library reads such a CONNACK as the broker sent it.
