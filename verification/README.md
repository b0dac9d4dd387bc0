# neri_player_desktop

The logic of the NeriPlayer desktop music player, verified with Verus: the
playlist store, the play queue, LRC and word-timed lyrics, the three-way merge
that synchronises playlists, favourites and play history with other devices,
the compact (protobuf, gzip, base64) form of that data, the NetEase and
Bilibili request signing and encryption, and login cookie handling.

Layout:

- `src/` — the verified library. Each public function states what it returns
  or changes in its `ensures`; the laws that relate several functions are
  public proof functions whose names start with `law_`.
  - `library.rs`, `audio_queue.rs`, `lyrics.rs`, `lyrics_source.rs` (with
    the order in which lyrics sources are asked),
    `scanner.rs`, `playback.rs`, `downloads.rs`: playlists, queue, lyrics,
    local files, playback decisions, downloaded tracks.
  - `sync/`: the data model, the merge and its laws, the compact form, the
    write-back into the local store, GitHub and WebDAV rules and the order
    of their requests, settings.
  - `auth/`: cookies, login state, the YouTube `SAPISIDHASH`.
  - `netease_crypto.rs`, `wbi.rs`, `netease.rs`, `digest.rs`: request
    encryption and signing.
  - `text.rs`, `decimal.rs`, `order.rs`, `clock.rs`: strings, numbers,
    ordering and time.
- `tests/` — tests of the library on concrete values.
- `app/` — a command-line program around the library: files on disk, HTTP
  requests, JSON and protobuf encodings.
