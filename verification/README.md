# volt

The core of the Volt package manager, verified with Verus.

- `src/` is the library. Each module states its behaviour in contracts
  and proves it:
  - `semver` — version precedence (a total preorder, with proofs of
    its laws) and the text form of versions;
  - `node` — resolving a requested node version against the release
    index, the download plan for a release, and where releases are
    installed and linked;
  - `init` — the `package.json` data, the package-name rule, and the
    `init` dialogue as a state machine;
  - `config` — the directories a command works in, and tarball digests;
  - `paths` — joining paths, their parents, their last names, and
    comparing them by components, as `std::path` does (with the Windows
    prefixes: drives, server shares, devices and verbatim paths);
  - `git` — values from `~/.gitconfig`, and the message of a
    configuration that does not parse;
  - `registry` — registry addresses and what each registry answer
    means, with bounded retries;
  - `tarball` — integrity checks, inflating, tar entries, the plan for
    unpacking a whole tarball (with its laws: no directory is created
    twice, every entry's parent exists), and the scripts for a
    package's binaries;
  - `text`, `errors`, `logout` — helpers, errors, and `logout`.
- `app/` is the command line: it reads arguments, files and the network,
  and leaves the decisions the library can make to it.
- `tests/` runs the library on concrete values.
