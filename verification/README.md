# cyrio

A manager for Diamond Rio S-Series USB MP3 players, with its protocol and
text logic verified by Verus.

- `src/` is the verified library `cyrio`: the packet, header, memory-record
  and playlist (FIDL) formats with their CRC32; the decisions of a device
  session (command status, the packet sequences of uploads, overwrites and
  downloads as a state machine that aborts on any failure, slot searches,
  the file number picked after an upload, the overwrite-or-reupload
  fallback); title processing (pinyin/romaji slugs,
  noise removal, ID3v2 tags); MP3 frame scanning; the sync plan that mirrors
  a folder onto the device; what the song and playlist lists show, and how
  the song page reacts to clicks and toolbar buttons.
  Laws about several functions are public proof functions named `law_*`.
- `app/` performs the I/O around it: the USB session over a `Transport`
  (it runs the library's step functions and performs what they ask),
  file access, the audio thread, the settings and sync-rule files, and the
  operations a front end calls.
- `tests/` runs the library on concrete values.
