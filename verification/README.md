# lunarcore

The verified core of LunarCore, LoRa mesh firmware that bridges MeshCore,
Meshtastic and RNode hosts (over USB serial, BLE and WiFi) to the radio,
repeats packets while no host is connected, and offers an AT console.

- `src/` is the library, checked by Verus: the node's decisions (`node`),
  the AT console (`at_command`, `text`), AES-CCM (`crypto`), the Meshtastic
  admin session, node database and packet history (`meshtastic`), RNode
  frames, the radio models and drivers' checks (`radio`, `subghz`, `sx1262*`,
  `sx1276`, `sx1280`), identity keys (`device`), battery, LED, repeat filter,
  counters and board descriptions.
- `tests/` runs the library on concrete values.
- `app/` is the ESP32 firmware around it: flash storage, the serial port,
  GPIO, ADC, sleeping, and the SPI/GPIO side of the SX1276 and SX1280.
