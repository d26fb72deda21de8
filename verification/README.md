# industrial_fixtures

Protocol fixtures for testing an industrial gateway: a Modbus meter (and the
register side of a battery rack), an SNMP agent with v2c and v3 USM
(HMAC-SHA-256-128, AES-128 CFB), a BACnet/IP device, a DNP3 outstation and
a Redfish service.

- `src/` is the library, verified with Verus: register maps and simulators,
  the OID store and its ordering, dotted-OID parsing, the v2c and v3 request
  handling, USM key localization and IV layout, BVLC framing and the BACnet
  frame dispatch. Codecs and crypto come from `rasn`, `bacnet-rs`, `sha2`,
  `hmac`, `aes`/`cfb-mode` and `rand`, behind small trusted wrappers whose
  results are named by uninterpreted spec functions.
- `app/` runs the fixtures (`modbus`, `snmp`, `dnp3`, `bacnet`, `redfish`):
  sockets, HTTP control surfaces, TLS, timers, and the floating-point models.
- `tests/` exercises the library against the real codecs.
