# flow_controller

Verified client-side logic of a LoRaWAN-controlled irrigation valve.

- `src/` — the library, verified with Verus: the protobuf wire primitives
  (`wire`), the `Uplink`/`Downlink` messages (`proto`), the uplink/downlink
  codec (`codec`), the 40-byte flash record (`record`), the valve state machine
  (`state`), one Class-A cycle as a sans-IO state machine (`runtime`), the
  LoRaWAN link (join, backoff, five-minute polling, rejoin on new keys) as a
  state machine (`link`), BLE key provisioning (`provision`) and the join
  backoff delay (`backoff`).
- `tests/` — tests of the library on concrete values.
- `app/` — the host-side `lf` provisioning CLI (BLE via `btleplug`) and the
  async drivers that run the link and its cycles against radio, timer,
  key-signal, valve and flash seams.
