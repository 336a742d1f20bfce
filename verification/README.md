# hifi_core

The core of a terminal music player that searches the Discogs catalogue,
finds a stream for a track with yt-dlp, plays it with mpv and draws the cover
art in the terminal.

- `src/` is the verified library: text handling (`text`), decimal numerals
  (`decimal`), the mpv IPC protocol (`mpv`), the catalogue records
  (`models`), the search and stream lookups (`api`), cover art (`art`) and the
  player screen's state machine and text (`ui`). The `law_*` proof functions
  state the properties that hold across calls.
- `app/` is the program around it: the terminal, the network requests, the
  yt-dlp and mpv processes, and the playback clock.
- `tests/` runs the library on concrete values.
