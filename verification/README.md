# vdl

A terminal video downloader for YouTube, TikTok, Instagram, Twitter/X and
Spotify, with a small local web server, built on `yt-dlp` and `ffmpeg`.

The crate is split in two:

- `src/` is the library, written in Verus. It holds the decisions of the
  program with their contracts: how command-line flags resolve to a
  download request, how file names and sizes are rendered, where the config
  and the helper binaries live, how `~` is expanded and shown, which cookie
  source is used, how the web server validates requests, finishes sessions,
  evicts finished ones and routes WebSocket events. `src/laws.rs` states
  properties that span several functions.
- `app/` is the program around it: argument parsing, terminal output,
  file and network I/O, the async server and the calls into `yt-dlp`.

`tests/` runs the library on concrete values.
