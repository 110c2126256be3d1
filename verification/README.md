# whirr

A system-tray player for an internet radio stream, with its logic verified
in Verus.

- `src/` is the verified library:
  - `icy.rs`: the ICY metadata de-multiplexer (audio bytes out, title changes
    reported), for a stream that arrives in chunks of any size;
  - `playlist.rs`: recognising a PLS playlist and reading its `FileN` entries;
  - `player.rs`: the audio engine's command loop (generations, device
    ownership), the reconnect backoff, the `icy-metaint` header, and the read
    position in the decoder's byte chunks;
  - `ui.rs`: the tray's state: menu actions, media keys, tooltip and menu
    texts, song-change notifications, the stream-URL prompt flow, settings
    reloads;
  - `config.rs`, `dialog.rs`, `util.rs`: accepted stream URLs, the config
    file's text, prompt texts and quoting, artist/title splitting;
  - `text.rs`: trimming, searching, ASCII case folding and decimal parsing.
- `tests/` runs the library.
- `app/` is the program: event loop, tray, media controls, audio output,
  HTTP, config file and dialogs.
