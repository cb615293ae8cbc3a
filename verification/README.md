# battery_logic

The pure logic of a battery charger's firmware, verified with Verus: no I/O, no
clock, no hardware. The firmware polls the buck converter and the sensors, hands
the readings to this library, and carries out what it asks for.

- `float` — single-precision numbers as bit patterns, with arithmetic that is
  proved to round to nearest, ties to even.
- `time` — spans of time.
- `battery` — chemistries, their charge voltages and the state-of-charge estimate;
  `battery_laws` proves that it is a percentage and rises with the voltage.
- `charging` — charge profiles and three supervisors. `two_phase` is the plain
  hysteresis controller with tick budgets. `charge_supervisor` adds bring-up,
  tickets and inhibits. `state_supervisor` runs on the flat machine of
  `charge_state` and can park, so that a load stays fed.
- `data` — readings that go stale, the adaptive-resolution history and its stored
  form, and a store that keeps the history across restarts.
- `error_log` — recent events and lifetime counts.
- `modbus`, `dns_packet`, `form`, `log_ring` — frames, packets, forms and a byte
  ring.
- `device`, `error`, `text`, `wire` — the buck's plain values, errors, and small
  helpers.

Public functions say in `ensures` what they return; properties that span several
calls stand beside them as public proof functions. What comes from the `heapless`
collections is stated at the wrappers around them and trusted.

`app/` holds what surrounds the library in the firmware: native floats, the bus
driver, log lines and display text.
