# obox-controller-driver

Bridge from the Snail OBox Bluetooth gamepad to a virtual Xbox 360 controller
(ViGEmBus), with HidHide configuration and a system tray.

- `src/` — the verified library (Verus):
  - `text` — trimming, prefix/substring tests, line splitting, joining;
  - `hidhide` — reading HidHideCLI output (`--app-list`, `--dev-list`,
    `--dev-gaming` JSON, `--cloak-state`) and planning the commands that
    register this program, hide or unhide the controller and switch the
    cloak on;
  - `buttons` — Xbox 360 button bits, key/hat/consumer mappings, triggers;
  - `gamepad` — input reports, the shared controller state, device lookup;
  - `output` — LED and rumble output reports (0xB3), and the rumble
    heartbeat that keeps the controller's pulse-mode motors running;
  - `debug` — names for raw inputs, the output test menu;
  - `tray` — tray texts, LED and deadzone menu, tray icon decoding (`ico`);
  - `cli` — the command line (`--no-deadzone` and the diagnostic modes).
- `app/` — the program: HID and ViGEmBus I/O, the HidHideCLI process,
  threads, the tray window, and the floating-point stick scaling.
- `tests/` — tests of the library.
