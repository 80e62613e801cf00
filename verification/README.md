# nixpick

Core of a terminal tool that searches nixpkgs, lets the user pick packages
into a basket, and stages them in a `.nixpick-basket` file for a
direnv-managed flake. The library is written in Verus; each public function
carries a contract that Verus proves.

Layout:

- `src/text.rs` — whitespace, trimming, decimal numbers, padding, substring
  search, number parsing, truncation and joining, each against its meaning.
- `src/package.rs` — the package type and name lookups.
- `src/basket.rs` — the basket file format: reading, writing, appending,
  removing, with proofs that a written file reads back.
- `src/app.rs`, `src/keys.rs` — the picker's state, what each key does, and
  the decisions around searches (stale results, debounce).
- `src/screen.rs` — the text of every part of the screen.
- `src/search.rs` — the search request body, what replies stand for, and the
  protocol that probes for a new index when the known one has gone.
- `src/cli.rs` — what each command-line command decides and prints.
- `app/` — the terminal front end, HTTP and file access, argument parsing.
- `tests/` — tests of the library on concrete values.

Flake generation: writing `flake.nix` and `.envrc` needs a flake writer
that this project does not contain. The front end therefore answers the
`g`/`G` keys and the `generate` command with "flake generation is
unavailable". `cli::generate_packages` (which packages a flake would get) and
`cli::generate_report` (the line reporting a written flake) are verified, but
`generate_report` has no caller until a flake writer exists.
