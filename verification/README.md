# m3u8_downloader

Downloads videos that M3U8 playlists describe. Given the address of a playlist it chooses the
variant with the highest resolution, downloads the segments and keys concurrently with retries,
saves a playlist that names the saved files, and can merge the segments into an MP4 with FFmpeg.

- `src/` is the library: everything that is decided, with contracts that Verus proves. What is
  believed of regular expressions, URLs and paths is stated in `src/outside.rs`; what holds of
  the library as a whole is proved below `src/laws/`.
- `app/` is the window, the requests and the files. It does what the library says and hands back
  what happened.
- `tests/` runs the library on concrete values.
