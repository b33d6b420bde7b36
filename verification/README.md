# brim

The declarative package layer for Homebrew: recipes (JSON lists of formulae and casks)
are fetched, merged, validated, locked against silent changes, compared with what is
installed, and applied with a terminal UI, as headless subcommands, or through an MCP
server.

## Layout

- `src/` — the library, verified with Verus: recipe validation and version syntax,
  merging recipes by package name, the canonical recipe JSON and its SHA-256 lock,
  sync analysis, the brew arguments and the reading of brew's output, the progress
  screen's state and decisions, the webhook summary, and the MCP tools' decisions.
  Each public function states its result in `ensures`; the laws that relate several
  functions are public proof functions named `lemma_*`.
- `app/` — the program around the library: command line, files, network, processes,
  threads, the terminal UI and the MCP transport. Invoked as `brim-mcp` with no
  arguments it serves MCP on standard input and output.
- `tests/` — tests of the library on concrete values.
