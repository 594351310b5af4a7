# media_downloader

A media link extractor and downloader whose decision logic is verified with
Verus.

- `src/` is the verified library. Given page HTML, API payloads (as
  `json::JsonValue`), playlist bodies and probe results, it decides which
  media a page holds, how alternate resolutions are grouped and filtered,
  which Instagram or Reddit request comes next, how a file is fetched and
  named, which tags and faces are saved, and where backups go. Every public
  function states its result exactly over spec functions; the `lemma_*`
  proof functions state the laws the library keeps (no repeated links,
  collision-free backup paths, safe folder paths, sanitizing and
  deduplicating twice change nothing, renditions in ascending bandwidth,
  the largest rendition promoted, no junk after filtering, ...).
  Calls into `regex`, `reqwest::Url`, `chrono`, `imagesize` and `csv` go
  through a few trusted wrappers whose contracts name their results.
- `app/` is the command-line program around it: HTTP requests, the headless
  browser, ffmpeg and ffprobe, EXIF writing and the SQLite queries.
- `tests/` runs the library on concrete inputs.
