# m3u8downloader

Downloads a video that is published as an M3U8 playlist: resolves the playlist,
fetches its keys and segments with several threads, can be paused and resumed,
and converts the segments to one MP4 file with `ffmpeg`.

- `src/` is the library, written in Verus. It decides; it neither fetches nor
  saves anything itself.
  - `text`: characters, lines, searching and replacing
  - `location`: URLs of keys and segments, by way of the `url` crate
  - `playlist`: the files that a playlist takes, and the local playlist
  - `fetch`, `retry`: the attempts at a playlist and at each file
  - `task`: the download under way, from its start to its end
  - `monitor`: the messages between the parts, and what they bring about
  - `thread_pool`: which worker gets which job
  - `convert`: converting and deleting the segments
  - `save_path`: a safe directory for a video, by way of the `regex` crate
  - `request`, `window`, `size`, `error`: what the user enters and sees
- `app/` is the program around it: the window, the requests, the files, and the
  threads. A window on the screen takes a backend and a renderer of `slint`, which
  are features of that crate.
- `tests/` runs the library.

Each public function states in its contract what it returns. Where that depends
on the platform, as the separators of a path do, the contract states what holds on
all of them. Facts that relate several functions are proof functions whose names
start with `law_`.
