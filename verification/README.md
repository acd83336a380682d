# chaosnexus_codex

A documentation server for MCP clients: it fetches documentation libraries
from git repositories, flattens their Markdown pages into one folder per
library, and answers tool calls that list, search and read those pages.

- `src/` is the verified library (Verus). Its modules:
  - `text`, `paths`: character-level text and path helpers (joining,
    splitting, file names, extensions, ordering, decimal notation).
  - `config`: the configuration, its layering (`merge`, `from_layers`), the
    storage location, and adding or removing libraries.
  - `fetch`: flattening page trees and the per-library fetch steps.
  - `docs`, `embedded`: library and page listings, search, paged reading and
    resources, for pages on disk and for embedded pages.
  - `tools`: how tool calls are understood, their replies and the tool list.
  - `server`: start-up settings and the ports to try.
  - `json`: JSON arrays of strings, made by `serde_json`.
- `app/` is the program around it: command line, configuration files, git,
  the file system and the MCP transports.
- `tests/` exercise the library on concrete values.
