# yt_dlp_server

A web server for downloading videos onto a server with yt-dlp, built around
a library whose decisions are proved with Verus.

## Layout

- `src/` — the verified library:
  - `text`, `json`, `pattern`: strings, option values and key-ordered maps,
    and the regular expressions (through the `regex` crate);
  - `config`, `aliases`, `paths`: the configuration, its defaults, alias
    expansion, rebasing onto the download root, the finished-files folder
    and the configuration file's location;
  - `jobs`, `rows`: jobs, their log cleaning and command display, and how
    the jobs table stores and reads them back;
  - `ytdlp`, `ffmpeg`: option merging and the command lines;
  - `queue`, `machine`, `tasks`: metadata, scheduling of upcoming events and
    the download, cut and update jobs as state machines that say what to run
    next;
  - `requests`, `progress`: what the web API decides, and the reading of
    process output.
- `app/` — the server around it: configuration file, SQLite, processes,
  workers and the HTTP API.
- `tests/` — tests of the library.
