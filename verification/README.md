# ferris-wheel

A detector of dependency cycles between Rust workspaces, written in Verus.
The library under `src/` states what each operation does in `requires` /
`ensures` contracts over mathematical models (`Seq`, `Set`, spec functions)
and proves them; the program under `app/` does what cannot be verified:
command-line parsing, walking directories, reading manifests, printing.

Layout of `src/`:

- `model/`: workspaces, crates and cycles as plain data; `graph/types.rs`:
  the nodes and edges of the dependency graphs.
- `analyzer/`, `toml_parser.rs`, `workspace_discovery.rs`: from parsed
  manifests to workspaces, crates and their dependencies.
- `graph/`: the crate and workspace graphs (through `petgraph`),
  reachability, and rendering as DOT, Mermaid, D2 or text.
- `detector/`: cycles from strongly connected components, with the laws
  that every component of two or more workspaces is reported.
- `commands/`: workspace dependencies (`lineup`) and the crates and
  workspaces a change affects (`ripples`), with their reports.
- `reports/`: cycle reports as text, JSON, JUnit XML and GitHub annotations.
- `executors/`: each command from configuration and analysed workspaces to
  the text it prints.
