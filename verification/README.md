# kf2_server

The core of the KF2 karaoke server, written in Verus. Verus proves the
contracts of the functions in `src/`, except for a few small trusted items
that call outside crates or std (URL resolution, hex decoding, AES-CBC
decryption, upper-casing, random words, `Arc` cloning, collecting characters
into a `String`, and cloning a `chrono` timestamp): their contracts are taken
on trust, and each one's doc comment says what it claims.

- `src/hls/` parses m3u8 media playlists (`parse`), plans their download into
  a self-contained local copy (`download`), decides playlist URLs and retries
  (`fetch`), and states properties of both (`laws`).
- `src/provider/` holds provider identities and asset URNs (`types`), DAM
  request shapes and response interpretation (`dam`), the provider registry,
  and the per-session cache of configured provider sessions (`cache`).
- `src/asset_cache.rs` decides what the asset cache records and reads back.
- `src/config.rs` and `src/cli.rs` resolve the configuration from the command
  line, the environment and the config file.
- `src/api.rs`, `src/frontend.rs`, `src/asset_tool.rs` and `src/dam_tool.rs`
  hold the decisions of the gRPC services, the frontend routes and the two
  command-line tools.
- `src/text.rs` provides the character-level text functions the rest builds on.

`app/` is the executable around the library: database access, HTTP, the file
system, the web server and the command-line front ends.

Verify with Verus on `src/lib.rs`; `tests/` holds the test suite.
