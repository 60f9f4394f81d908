# jkl

A small source-based package manager. Each package lives in
`~/.jkl/repo/<name>-<version>/build.sh`; installed packages are recorded in an
SQLite database at `~/.jkl/packages.db`, and their binaries go to `~/.jkl/bin`.

## Layout

- `src/` — the library, verified with Verus:
  - `version.rs`: reading a version string as a number (`1.0.20` is `1020`);
  - `order.rs`: how a repository version stands to an installed one (the
    numbers `version_to_int` gives, and the parts between the dots where they
    differ);
  - `listing.rs`: the listing of installed packages, with counts in decimal;
  - `repo.rs`: finding a package among the repository's folder names;
  - `types.rs`: a package (`PData`) and its folder name;
  - `paths.rs`: the directories under `$HOME/.jkl` and the database URL;
  - `builder.rs`: how a build script is run, and when a build failed;
  - `plan.rs`: what `install`, `update` and `delete` do, and how a built
    package is recorded, with a model of the table of installed packages;
  - `setup.rs`: what `init` creates;
  - `cli.rs`: the commands.
- `app/` — the `jkl` program: the command line (clap), the file system, the
  build script process and the database (sqlx on tokio), driven by the
  library's decisions.
- `tests/` — tests of the library.
