# vixenlens

The indexing and search core of VixenLens, a desktop tool that indexes VRChat
screenshots by the metadata VRCX writes into them, written in Verus.

- `src/` is the verified library: path rules (image files, ignore folders,
  folder prefixes), the SQL text of the prune statement and of image searches
  with their bound values, the folder scan decisions and progress events, the
  index cache and the rule for skipping unchanged files, screenshot metadata
  extraction, index rows, data URLs and gallery entries, folder registration
  and the default settings.
- `tests/` runs the library on concrete values.
- `app/` is the Tauri shell: commands, SQLite, the file system, image decoding
  and thumbnails, and the settings file.

Run Verus on `src/lib.rs` to check the proofs.
