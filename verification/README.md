# memoryos-wiki-gen

Generates wiki documentation for a code repository: it discovers the source
files, parses them (Rust, Python, Java, TypeScript, Vue single-file
components), reads package manifests and API specifications, finds HTTP
endpoints of common frameworks, builds a code graph, and renders index,
architecture, API and module pages with Mermaid diagrams. Symbol documentation
comes from the symbols' own doc comments, with a cache keyed by content hashes
so that a second run reuses what the first produced.

## Layout

- `src/` — the library, verified with Verus. Each public function states what
  it returns in its `ensures`; the `law_*` proof functions state properties
  that span several functions (the cache gives back what was stored, the node
  layout of the code graph, the partition of symbols into modules, the export
  skipping unchanged pages, and others).
  - `parser/`, `endpoint/`, `manifest/` — reading source files, endpoints and
    manifests into the repository model of `ir`.
  - `graph`, `diagram`, `evidence`, `llm_gen`, `page_builder`, `wiki_index`,
    `export`, `cache` — from the model to pages.
  - `storage`, `cloud`, `baidu`, `webdav`, `object_store`, `sftp` — the
    storage connectors: their settings, the requests they make and the reading
    of the replies.
- `app/` — the command-line program: argument handling, file and network
  I/O, and the loop that runs the pipeline over a repository.
- `tests/` — tests of the library through its public interface.
