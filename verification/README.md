# vxapo_cli

The command-line tool of VxAPO, an audio processing object for Windows endpoints:
it lists endpoints and who occupies their APO slots, installs and uninstalls the
VxAPO driver on an endpoint (optionally verifying that the audio engine loads it),
keeps registry baselines, converts legacy text configuration and dumps endpoint
registry values.

The library (`src/`) holds the tool's logic, written in Verus and verified:

- `args`, `cli`: option parsing and planning a command from the command line.
- `commands`, `status`, `display`: resolving `<device>`, slot names, Equalizer APO and
  lost-slot detection, and the lines that `list`, `status` and the viewer print.
- `reg`, `probe`, `regdump`: decoding registry values and turning the MMDevices tree
  into endpoints; the raw value dump.
- `snapshot`: the baseline text of a device and the diff of two baselines.
- `convert`: legacy text configuration to `config.toml`.
- `verify`, `pipe`: the `install --verify` run (mode order, scoring, events) and the
  framing of the verification pipe's messages.
- `register`, `lifecycle`: the steps of registering the driver DLL, and of the `install`
  and `uninstall` commands.
- `reports`, `protocol`, `json`, `i18n`, `knowledge`, `text`: messages, receipts, the
  JSON contract's plain types, escaping, languages, registry knowledge and text helpers.

`app/` is the program around it: it performs the registry, file, driver, COM and pipe
work on Windows and prints what the library composes. `tests/` runs the library on
concrete values.
