# mcmappings-sqlite

Converts Minecraft mapping files into an SQLite database: Mojang's ProGuard
mappings (`.txt`, `.mappings`), Fabric's Tiny mappings (`.tiny`, versions 1
and 2) and Forge's SRG mappings (`.srg`, `.tsrg`).

- `src/` is the verified library (Verus). `text` holds the character-level
  operations (lines, trimming, splitting, integer parsing), `mapping` the
  choice of reader by file extension and the bookkeeping of a run, `json` the
  calls into `serde_json`, and `resolvers` one state machine per format: each
  line gives the row to insert, and the database identifiers of inserted rows
  are handed back to it.
- `app/` is the command-line program: argument parsing, logging, the file
  reads and the SQLite work that the library's readers ask for.

Usage: `mcmappings-sqlite create [PATH]` creates an empty database (default
`mappings.db`); `mcmappings-sqlite append --inputs FILE... --version V [--db PATH]`
appends mapping files to it.
