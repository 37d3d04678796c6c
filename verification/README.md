# llamapackageservice

Analyzes and documents software packages and repositories: GitHub
repositories and organizations, PyPI packages and profiles, npm packages,
Rust crates, Go packages, and local files and directories. Each is turned
into a Markdown/text report under an output directory, which can then be
organized by category and indexed (Markdown, JSON and HTML).

## Layout

- `src/` — the library, written in Verus. Every function carries a
  `requires`/`ensures` contract that Verus proves: URL and name parsing,
  processor selection, every report text (as a spec function of its
  inputs), the package index, the output layout, the TTL cache, the rate
  limiter, job tracking, metrics and configuration. `src/bindings.rs` and a
  few functions in `src/text.rs` hold the trusted contracts of the calls into
  `regex`, `url`, `scraper`, `chrono`, `pathdiff` and `std`.
  Public proof functions named `law_*` state properties that span calls,
  such as reading back what the cache stored or the rate limiter never
  granting more than its limit.
- `app/` — the command-line program: HTTP downloads, archives, the file
  system, progress bars and the interactive prompt. It gathers plain values
  and hands them to the library.
- `tests/` — tests of the library on concrete inputs.
