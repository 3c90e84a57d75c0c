# yt_dlp_gui

The verified core of a desktop front end for yt-dlp.

- `src/settings.rs` — download settings and the exact yt-dlp command line they
  stand for (`DownloadSettings::build_args`), with laws about the format selector.
- `src/text.rs` — Unicode whitespace trimming, splitting, joining and decimal
  notation, as the command line needs them.
- `src/downloader.rs` — which bundled binaries must be rewritten (SHA-256),
  reading yt-dlp's output lines into progress and log events, and the end of the
  yt-dlp process.
- `src/session.rs` — the window's download and link-analysis state machine.
- `app/` — the egui window, files, processes and threads around the library.
