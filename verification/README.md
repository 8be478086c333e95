# ultra-media-remote

Reads the macOS "Now Playing" session (metadata, transport capabilities, output
volume, an optional 11-band spectrum) and controls it (transport commands,
seeking, volume).

Two paths lead to the system: the staged MediaRemoteAdapter, a process started
through `/usr/bin/perl`, and a native layer that loads Apple's private
MediaRemote framework at run time. What is missing degrades to `None` or `false`.

## Layout

- `src/`: the library, written in Verus. It holds every decision between the
  system and the caller and makes no system call of its own; what only the system
  can do comes in as values or as functions to call.
  - `now_playing`, `adapter`, `spectrum`, `rendering`: what payloads mean, and
    what snapshots are written as
  - `json`, `parser`: JSON values, read by the `serde_json` crate
  - `youtube`: video IDs that identifier fields confirm
  - `transport`, `seek`, `session`: commands, positions, and point-in-time reads
  - `staging`, `cache`, `subscription`: where the adapter lies and how it is
    called, how long its answers last, and who is called back
  - `double`, `single`, `rounding`, `text`: numbers by their bits, and text by its
    characters
- `app/`: the system side: the native layer, the adapter as a process, serde. Its
  spectrum part is opt-in: it is compiled with the `spectrum` feature only.
- `tests/`: tests of the library.

Floating-point numbers are carried by their bit patterns and specified by the
numbers these stand for, so that ranges, clamping and rounding are proved.

## Laws

Besides the contract of each function, `src/` states what holds of the library as
a whole in public proof functions whose names start with `law_`.
