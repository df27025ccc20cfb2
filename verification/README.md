# mdl

A music downloader: it fetches album descriptions ("specfiles") from YouTube and
SoundCloud through yt-dlp, downloads the tracks, converts or splits them with
`ffmpeg`, and tags them (FLAC Vorbis comments or ID3v2.3).

The library in `src/` is written in Verus and verified; `app/` is the command
line program around it (argument parsing, Python, files, processes, network).

- `url` — URLs as the `url` crate parses and rewrites them.
- `fetch` — which URL a fetch asks for, fetched albums, and how their specs are named.
- `specfile` — the kind of a specfile (from its TOML), playlist and chapter albums,
  which URLs are former outputs of a fetch,
  file identifiers, and tags of tracks.
- `download`, `post`, `tag` — what downloading, converting and tagging do with each track.
- `logger`, `cli`, `impls` — log levels and records, options, and the plans of the
  commands (which URL a fetch fetches with which ID; the order of a download or tag run).
- `text` — searching, trimming, joining, number rendering and parsing.
