# ubi

The universal binary release installer: it finds the release asset of a project
that was built for this platform, downloads it, and installs the executable in it.

- `src/` is the verified library. Its modules are `project` (project names,
  executables, requests and URLs), `platform` and `matcher` (the platform and the
  patterns that asset names follow), `release` (the choice of an asset), `archive`,
  `zipfile`, `tarball`, `sparse` and `path` (where the executable lies in what was
  downloaded), `download`, `error`, `logging`, `text`, and `ubi`, which puts them
  together.
- `app/` is the command line, the network and the file system around it.
- `tests/` runs the library.

`bzip2` and `xz` are built with the C libraries that they bundle, the latter through
the feature `static` of `xz2`, so that what they decode does not depend on what is
installed on the machine.
