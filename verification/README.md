# shiratsu

Reads the names that ROM cataloguing groups (No-Intro, redump.org, TOSEC,
GoodTools) give to game dumps, and the entries of their DAT files, and states
in Verus contracts what each reader returns.

- `src/text.rs`: character-level helpers that the grammars are built from.
- `src/region.rs`: region lists in the three conventions.
- `src/naming/`: the name grammars of each convention, as spec functions with
  executable readers proved against them, and what a name says about its game.
- `src/dat.rs`: game and ROM entries of DAT files, serial normalization and
  ROM mimetypes.
- `src/stone.rs`: the Stone platform database.
- `src/sortrules.rs`: the globs that sort DAT files into platform folders.
- `app/`: the command-line program: XML and JSON reading, file system work,
  logging.
