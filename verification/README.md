# nativepkg

Build native Linux packages, `.deb`, `.rpm` and `.pkg.tar.zst`, from a single command.

The package files are produced directly: there is no `dpkg-deb`, `rpmbuild`, `makepkg` or
`fakeroot` under the hood, so all three formats can be built on one machine. Configuration lives in
one place, a `.nativepkg` file beside the project or the command line; a flag always wins over the
file, and `package.json` is never read.

```bash
nativepkg --format deb,rpm,arch --nodejs -- index.js package.json lib/
```

`nativepkg --help` lists every flag, `--list-json-overrides` every configuration key, and
`--dry-run --json` describes what would be built without writing anything.

## What is proved

The logic is written in Verus, in `src/`, and verified: names, versions, the resolution of the
configuration, the collection of a project's files, the plan, templates, maintainer scripts, and
the three backends that write the archives. Contracts are stated over mathematical models; the
public proof functions state what holds across calls, such as

- a plan holds every ancestor directory, each before what it contains, and no path twice;
- nothing from outside the project is collected;
- rendering substitutes values literally, and names every placeholder it does not know;
- a quoted value is read back unchanged by a shell or by systemd;
- two builds of one plan are the same bytes, for an RPM given the same build time, and a `.deb` or
  Arch package reads back as what was planned;
- an Arch manifest agrees with its archive, in both directions;
- what the maintainer scripts call is among the dependencies.

Compressors, digests, the `tar`, `ar` and `rpm` containers and the semantic version grammar come
from crates, behind small wrappers whose contracts are trusted.

## Layout

- `src/` the verified library
- `tests/` its tests
- `app/` the command line program: arguments, files, processes and streams
