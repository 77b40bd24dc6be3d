# grizld

The playback core of Grizld, a keyboard-driven, Vim-style video editor, with
its behaviour stated in Verus contracts and proved.

Timestamps are integer microseconds; audio samples travel as the bit
patterns of 32-bit floats, so every queue, cache, clock, parser and decision
of the player is checked by Verus.

## Layout

- `src/` — the verified library:
  - `command/` — the `:` command line: parsing (`parser`), character-level
    text handling (`text`), and what running a command asks for (`executor`).
  - `editor` — normal-mode keys, command mode and history, the command
    palette's suggestions and the status line.
  - `buffer_manager` — several open videos, switching and closing them.
  - `cache/`, `buffer/` — frame and audio caches and buffers with their
    capacities and orderings.
  - `sync`, `playout`, `scheduler`, `packet_queues` — the audio-driven
    playback clock, the audio output's turn, the decode workers' and
    demuxer's decisions, and the read-ahead of demuxed packets.
  - `timeline/` — the microsecond timeline: clocks, frame history, audio
    frames and their buffer, the audio callback, the double frame buffer,
    stream time bases (`stream`, through exact fractions in `rational`),
    and sample extraction from decoded planes.
  - `platform` — errors of the platform layers.
- `app/` — the terminal program around the library: FFmpeg demuxing and
  decoding, worker threads, the audio output thread, and the terminal user
  interface.
- `tests/` — tests of the library.
