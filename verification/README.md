# snag-core

The logic behind Snag, a small desktop front-end for yt-dlp on Windows,
written in Verus and proved against its contracts.

- `src/` is the verified library: reading yt-dlp and winget output
  (`parse`, `ytdlp`, `winget`), version tags (`version`), the release check
  (`update`), text cutting (`text`), the tools and their packages (`tools`,
  `install`), settings (`settings`), the installer's scripts (`setup`), and
  the character-level model they share (`scan`).
- `app/` is what reaches the machine: the egui window, the installer, and
  the code that starts winget, yt-dlp and curl, finds the tools, reads and
  writes the settings, and turns the number texts the library finds into
  fractions.
- `tests/` runs the library on concrete inputs.
