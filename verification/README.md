# ytcli

A small command-line player for YouTube audio: yt-dlp finds and resolves
tracks, mpv plays them in the background over its IPC socket, and a session
queue, local playlists, an offline Opus cache and Spotify mirroring sit
around them.

## Layout

- `src/` — the library, verified with Verus. Every module states its
  behaviour in `requires`/`ensures` contracts over spec functions:
  - `queue` — replacing, appending, clearing, moving through and shuffling
    the session queue;
  - `commands` — what the commands decide and print (targets, sockets,
    `next`/`prev`, status and queue lines, clocks);
  - `watch` — the auto-advance process: when to advance, what advancing
    does (repeat, next track, or a clean stop), and which process is ours;
  - `playlists` — names, file names, merging by id, loading, listing order;
  - `cache`, `playback`, `download` — the audio cache index, where a track
    plays from, and the download steps;
  - `player` — mpv's start arguments, its JSON commands and its replies;
  - `youtube`, `spotify` — yt-dlp arguments and output, Spotify links,
    metadata pages and mirroring;
  - `state`, `error`, `display`, `cli`, `paths`, `text` — the persistent
    state, error messages, listing format, argument checks, and the path and
    text helpers the rest is built on.
- `tests/` — ordinary Rust tests of the library.
- `app/` — the program: argument parsing, files, processes, sockets and
  HTTP, which hand plain values to the library and act on what it decides.

The few calls into other code that Verus cannot read (the clock, the user's
directories, `serde_json`'s string escaping and parsing, a handful of standard library
functions) sit behind small wrappers whose doc comments say what is trusted.
