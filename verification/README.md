# Jabraw

The multi-function button on Jabra headsets does nothing on Linux. Jabraw
makes it play and pause, and adds a tray menu for battery, volume, mute and
output device. Devices are matched by vendor id, USB `0b0e` and Bluetooth
`0067`, not by model.

The decisions and the data handling are a library verified with Verus; the
program around it does the reading, writing and waiting.

## Layout

- `src/` — the verified library.
  - `gnp.rs`: the GNP packet layout, requests, replies and their round trip.
  - `rfcomm.rs`: cutting the RFCOMM byte stream into packets, matching
    replies, collecting a sweep.
  - `link.rs`: the Bluetooth link as a state machine — when a session is
    tried, what it is asked, what its answers change.
  - `daemon.rs`: matching hidraw replies to requests, the device information.
  - `hid.rs`: key reports, rising edges, `uevent` parsing, vendor matching.
  - `config.rs`: the table of device settings, sweeps and writes.
  - `dialog.rs`, `display.rs`, `tray.rs`: what the dialogs, notifications and
    the tray menu show, and what the settings form sends.
  - `audio.rs`, `mpris.rs`, `bluetooth.rs`, `i18n.rs`: answers of the audio
    tools, player choice, BlueZ devices, the interface language.
  - `table.rs`, `textual.rs`: a small map and text helpers.
- `tests/` — tests of the library on concrete values.
- `app/` — the daemon: hidraw, D-Bus, the tray, the dialog tools, the icon.

Contracts are stated over `Seq`, `Map` and views; the laws the library keeps
across calls are proof functions named `law_…`.
