# context_pilot

The decision logic of a terminal AI assistant's modules, written in Verus with its
behaviour stated in contracts and proved.

- `src/` — the verified library:
  - `sql`, `sql_tools`, `entity_sql`, `entities`, `entity_blocks`, `migrations`, `schema`:
    the entity database tool (statement splitting and classification, result and error
    reports, result panels, the schema panel, start-up recovery and pending migrations);
  - `search`, `search_config`, `indexer`, `overlay`, `overlay_data`, `overlay_columns`:
    the search module (project hash, file routing to the files or logs index, binary
    detection, log documents, the index changes for a file (old chunks deleted, then the
    new ones added), command merging, the indexing status overlay as text and
    as styled columns);
  - `chat`, `download`: the chat tool's decisions and the chat server installer;
  - `history`, `navigation`, `queue`, `library`, `tools_overview`, `sidebar`,
    `api_schema`, `model`: prompt history, panel navigation, replaying the tool queue,
    panels, the sidebar's token-statistics box and model selection;
  - `text`, `tool`, `context`: shared string helpers and plain data types.
- `tests/` — tests of the library on concrete values.
- `app/` — the I/O around the library: SQLite, the chat and search servers, HTTP
  downloads, the file watcher, persisted JSON, and the figures kept in floating point.

Calls into outside crates from `src/` go through a few trusted wrappers, each with a
doc comment saying what its contract assumes: `sha2` for the project hash,
`unicode-width` for display widths, and the standard library's case mapping,
`char::is_alphanumeric` and `String::push`.
