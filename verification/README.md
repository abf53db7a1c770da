# voxel

The engine-independent core of a small voxel game (client and server), written
in Verus. Every function in `src/` carries a contract. Verus proves them all,
except for the small wrappers marked `#[verifier::external_body]` that call
std or an outside crate (lz4, smallvec, hashbrown through bevy_utils,
thunderdome, hecs): their contracts are trusted, stated from those crates'
sources and documentation.

- `src/world`: blocks, chunks and the chunk arenas.
- `src/input`: keyboard and mouse state, key bindings, recorded input snapshots.
- `src/text.rs`, `src/text_box.rs`: string helpers and the single-line text box
  (editing, selection, clipboard requests, drawing).
- `src/renderer`: the CPU side of the renderer: glyph layout, line
  breaking, vertex queues, decoding of the compressed glyph table and textures.
- `src/chat.rs`: the chat history, its input line and its drawing.
- `src/states`: the menu screens (username query, connection lost) and the
  in-game bookkeeping (crosshair, remote entities, input acknowledgements).
- `src/server`: network ids, player ids, the id-to-entity table and what each
  player is told about the entities around it.
- `src/networking.rs`: message framing and input numbering.
- `app/main.rs`: the client program around the library: the window, input
  devices and clipboard. It has no GPU or network backend.
- `tests/`: tests that run the library with its outside crates.
