# carbon

Verified domain logic of a Minecraft launcher, written in Verus.

- `src/java/` — Java runtimes: architectures, component kinds, stored rows,
  and the grammar of Java version strings (`version.rs`), with the proof that
  a version written back as text reads back the same (`round_trip.rs`).
- `src/maven.rs` — Maven coordinates `group:artifact:version`: the accepted
  shape, splitting, trimming, and the repository path of an artifact.
- `src/request.rs` — sorting `reqwest` errors into the cases the launcher
  tells apart.
- `src/instance.rs`, `src/vanilla.rs` — the decisions taken while writing an
  instance and installing vanilla Minecraft.
- `src/scan.rs`, `src/text.rs`, `src/unicode.rs`, `src/path.rs` — character
  runs, string access, Unicode classes and paths.
- `app/` — serialised and displayed forms of the library's types, and the
  file-system side of writing an instance.
