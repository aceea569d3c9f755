# turto

The verified core of turto, a self-hosted Discord music bot built around yt-dlp.

`src/` is a Verus library. Every function in it carries a contract that Verus proves:

- `models/` holds the bot's data: commands, their declarations and their registry, help files and
  per-locale resolution, the play queue and what plays after a track ends, queueing a
  typed link at either end, link parsing (YouTube links, timestamps, playlists),
  configuration defaults and stored track records.
- `utils/` holds message templates, number and text helpers (keycap emoji, decimal
  text, ASCII-case matching), absolute URLs as the `url` crate parses them, and
  voice-channel comparison.
- `ytdl/` holds the decisions behind getting a track's bytes: which byte path serves
  a format, the chunked range fetch and its pacing, the recovery budget of the direct
  path, the HLS playlist walk (with a check that every numeric value in a playlist
  is one the parser takes without panicking), the tail file that readers follow, and the yt-dlp
  sidecar's launch arguments, announcements, versions and failures.

Laws of the library are stated as public proof functions next to the code they are
about (for example `template_parse_round_trip`, `chunks_tile_the_stream`,
`attempts_stay_within_budget`, `unknown_locales_resolve_as_the_default`,
`a_youtube_link_reads_back`).

`app/` is ordinary Rust around the library: reading `config.toml`, `help.toml` and
`guilds.json`, the sidecar process and its HTTP client, and the byte producers that
run the library's decisions against the network and the disk.

`tests/` exercises the library on concrete values.
