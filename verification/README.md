# weave

Weave is a git-aware development environment engine for Node.js projects. It treats `node_modules` as a materialized view of a content-addressed dependency environment built from `package-lock.json`, and keeps lifecycle-script execution off unless the configuration opts in and `--with-exec` is given.

- `src/`: the library, written in Verus. Every function carries a contract that Verus checks. The lockfile graph, the planning and policy gates, the store layout, URL and integrity checks, the status and doctor reports, and the rules for extracting and packing tarballs all live here. Calls into `sha2`, `tar` and `flate2` go through small trusted wrappers whose contracts are documented next to them.
- `tests/`: tests that run against the compiled library.
- `app/`: ordinary Rust around the library. It does the file system, git, network, TOML and JSON I/O, and holds the serde forms of the library's records.
