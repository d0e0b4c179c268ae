# mcub

Bridges between a microcontroller on a serial line and this machine: the state of a music player
(MPD), the spectrum of an analyser (CAVA), and figures of the machine go to the device; commands come
back from it. A watcher finds devices, asks each for its name, and keeps a bridge running for one.

- `src/` is the library: every rule, parser, queue and state machine, with contracts that Verus
  proves. Times are nanoseconds of a monotonic clock, handed in by the caller.
- `app/` is ordinary Rust around it: files, sockets, the serial line, processes and threads. The name
  of the program decides which of the two programs runs: one with `watcher` in its name is the
  watcher, any other the bridge.
- `tests/` runs the library.

## Bridge

    mcub-bridge-rust <mpd|cava|hybrid|sysinfo>
    mcub-bridge-rust <device> <mpd|cava|hybrid|sysinfo>

## Watcher

    mcub-watcher-rust [--status] [--cleanup] [--no-wait-mpd] [--version]

## Wire

115200 baud, 8N1. Messages are lines of JSON, `{"t":kind,"d":content}`; a device may take the spectrum
as binary frames instead: the byte `0xCA`, the number of bars, and one byte for each bar.
