# nockster_fw

The logic of the Nockster hardware-wallet firmware as a Verus-verified
library, with a small host tool around it.

`src/` is the library:

- `nvs_store/`: the encrypted seed store on the NVS partition. Record
  formats (`records`), the flash operations that mirror the in-memory image
  (`flash`), PIN-derived keys and sealed slots (`keys`), setup, unlock, PIN
  change, adding and deleting seeds and the attempt counter (`seeds`),
  calibration, theme, labels and the address book (`prefs`), and the flash
  pause handshake with the worker core (`pause`).
- `session`, `seed_store`, `derivation`, `signing`: the unlocked seeds in
  RAM, BIP32 derivation and the secp256k1 requests answered from them.
- `jobs`, `outcomes`: the mailboxes between the UI and worker cores and what
  each worker result does to the session and the screen.
- `protocol`, `dispatch`, `fragments`, `frames`, `confirm`, `usb_hid`: request
  handling, fragmented transfers, confirmation prompts, wire framing and the
  HID report queue.
- `update_auth`, `raw_flash`, `security`, `identity`: firmware-update
  streaming checks, flash access planning, eFuse lockdown planning and device
  identity.
- `gui/`: the touchscreen state machines and layouts (PIN pad, seed phrase
  entry and verification, labels, menus, scrolling, the pet screen) and the
  text the screens show.

`tests/` exercises the library on concrete values. `app/` is a host tool:
it keeps the NVS partition in a file, frames messages, derives extended
public keys, and renders screens with embedded-graphics.
