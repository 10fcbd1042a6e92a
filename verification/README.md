# dpia

Firmware of a small weather station (Raspberry Pi Pico 2 W): Sensirion
SHT4x/STS4x/SEN5x sensors on I2C, two MAX7219 seven-segment displays, an
EP-0159 UPS on a UART, uploads over HTTPS and a Bluetooth GATT service.

- `src/` is the library, verified with Verus: decoding of the sensors'
  checksummed frames (`sensiron`, `checksum`, `convert`), the flash record and
  its CRC-32 seal (`persistent`), decimal rendering and parsing (`decimal`),
  display and upload texts and the collector's round (`display`, `data`,
  `text`), the UPS status-line framing (`ep0159`), the GATT answers and
  advertising data (`bt`) and the weekday/weekend power schedule with its
  calendar arithmetic (`clock`).
- `app/` is the firmware around it: the embassy tasks, the I2C, UART, flash,
  HTTP and Bluetooth I/O, and what handles floats.
- `tests/` runs the library on concrete values.
