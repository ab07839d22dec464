# virtual_core

The logic of `virtual.`, a manager for virtual machines and emulated retro computers and
consoles: the data model, the built-in machine profiles, the QEMU and RetroArch command
lines, QMP messages, CD-image analysis (NRG, CUE/BIN, MDF, CCD, raw sectors), engine
detection, snapshots and save-state slots, and how an engine is stopped. The library is
written in Verus: its functions carry contracts that Verus proves, apart from a few
trusted wrappers around outside code, whose contracts are believed.

## Layout

- `src/` — the verified library.
  - `model.rs`, `profile.rs`, `builtin.rs`: machines, profiles and the built-in profiles.
  - `argv.rs`, `launch.rs`, `libretro.rs`: the engine command lines and what they are
    started with.
  - `image.rs`, `cue.rs`: how a CD image is read and which bytes make its ISO.
  - `qmp.rs`, `session.rs`, `stopping.rs`: QMP messages, the state of a running machine,
    snapshots and logs, and the steps of a stop.
  - `detect.rs`, `probe.rs`, `settings.rs`, `machines.rs`, `paths.rs`, `text.rs`: hosts,
    engine search, settings, machine folders and media, path and text helpers.
  - `laws.rs`: properties that span several functions, each a proof function.
- `tests/` — tests on concrete values.
- `app/` — the `virtual` command-line program: files, processes, sockets and time, around
  the library.

The trusted wrappers: `serde_json` parses and writes JSON (`qmp.rs`), `sys-locale`
reports the system language (`settings.rs`), and std's case mapping and string
comparison are specified in `text.rs`.
