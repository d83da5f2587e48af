# git_warden

A library of repository policy checks for commits and staged changes: comment language,
emoji, invisible and confusable characters, encoding, `.editorconfig` rules, binary files,
protected and append-only paths, cache directories, custom regular-expression rules, syntax
of data files, and the configuration that drives them (defaults, merging, includes, format
versions and migration).

The checks in `src/` are written in Verus: each public function carries a contract over
spec functions and views, and the laws of the library (ordering of comment items, natural
file-name order, path glob matching, configuration merging, round trips of path output,
format detection) are proved there. Calls into `regex`, `serde_yaml`, `serde_json`,
`quick-xml`, `toml`, `chardetng`, `infer` and `sha2` stand behind small trusted wrappers
whose contracts name what those crates return.

`app/` holds what cannot be verified: reading files and running `git`, the progress
display, network fetches, process-wide settings and serde copies of the configuration
types. `tests/` exercises the library from outside.
