# RustTube

A Windows desktop frontend for `yt-dlp`: paste a URL, preview the media,
pick a mode (video, MP3 audio or a manually chosen yt-dlp format) and a
quality, and download. The helper tools (`yt-dlp`, `ffmpeg`, `ffprobe`,
`deno`) can be fetched into the application's own tools folder.

## Layout

- `src/` is the library, verified with Verus:
  - `text.rs`, `decimal.rs`: the character-level model (trimming, lines,
    whitespace tokens, substring search, decimal numerals) that the
    readers below are specified over;
  - `progress.rs`: download progress read from yt-dlp's console output;
  - `app_model.rs`: modes, quality presets, the `-F` format-list reader,
    format selectors, tool paths and the helper-tool command prefix;
  - `app_state.rs`: the window's state and its decisions (previews,
    format lists, downloads, reports from background work);
  - `runtime_tools.rs`: which tools are missing, how each package is
    fetched and installed, and which archive entry holds a program;
  - `preview.rs`: the preview shown for yt-dlp's JSON description and the
    decoded thumbnail (through `serde_json` and `image`);
  - `icon.rs`: the application icon (through `ico`);
  - `settings.rs`: the settings kept between runs.
- `app/` is the program around it: the `eframe` window, processes,
  threads, downloads and files.
- `tests/` exercises the library on concrete values.
