# wine_cellar

The backend of a manager for Steam compatibility tools: it lists releases on GitHub,
downloads and unpacks them, installs them beside Steam's own tools or mounts them into
virtual tools, and removes them again.

What the backend decides is a library verified with [Verus](https://github.com/verus-lang/verus).
What it does to the network, the disk and the user interface is ordinary Rust around it.

- `src/` is the library. `github_util` lists a repository's releases page by page, `paths`
  treats Unix paths as bytes, `text` treats text as characters, and `wine_cask` holds the
  operations on tools. An operation is a sequence of stages: a stage says what is to be done
  next, and takes what came of it to the next stage.
- `tests/` runs the library, among others against `std::path` and the character classes of
  `std`.
- `app/` does what a stage says, and reports back to it.

Properties that span several functions are proved in the proof functions whose names start
with `law_`, next to the code they speak of or in the modules whose names end in `_laws`.
