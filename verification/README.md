# lode

A package manager for Minecraft modpacks, with a verified core.

You keep a small manifest (`lode.json`) of the mods you want; `lode` resolves their dependencies,
locks every file by its hash (`lode.lock`), and installs the jars. The decisions behind that are a
[Verus](https://github.com/verus-lang/verus) library: each function carries a contract, and Verus
proves that its body keeps it.

## Layout

- `src/` is the library. It reads no file, opens no connection and starts no process: it takes plain
  values and returns plain values.
  - `manifest`, `lock`, `side`, `loader`, `provider`, `version_req`, `hash`: the data of a pack.
  - `resolve`, `graph`: the resolver as a state machine, and what every resolution guarantees.
  - `providers`: which version or file of a project is taken.
  - `packwiz`, `bridge`: the packwiz layout, and that an import reads what an export wrote.
  - `overlay`, `paths`, `provision`, `versions`, `http`: overlay files, loader servers, version
    catalogs, and the rules for destinations, sizes and retries.
  - `commands`: what each command decides.
  - `text`, `order`: strings and stable sorting, as far as the rest needs them.
- `app/` is the program around the library: arguments, files, the network, prompts.
- `tests/` runs the library on concrete values.

## What is proved

Contracts say what a function returns for every input. Public `proof fn`s state what holds across
functions, for example that

- a resolution is deduplicated, closed under required dependencies, and holds nothing without a
  reason, whatever the providers answer (`graph`);
- a mod's jar is written only if its bytes have the locked hash, downloaded or local, and jars are
  pruned only when every other jar is in place (`commands::install`);
- a mismatching checksum is fatal, and a remote pack without a checksum or a signature is refused
  unless asked for (`commands::get`);
- a Modrinth or CurseForge mod exported to packwiz is read back as the same mod, as long as no field
  holds a line break (`bridge`);
- pinning a mod and unpinning it again leaves the manifest as it was, where the mod was not pinned
  and was declared in the shortest form (`commands::pin`);
- an archive does not depend on the order in which its files were found (`commands::bundle`);
- a destination is admitted only if none of the addresses handed to the guard is internal (`http`).

## What is trusted

The library calls `sha1`, `sha2`, `md5`, `semver`, `indexmap`, `tar` and `flate2` through small
wrappers, whose doc comments say what is taken for granted of each call. JSON and TOML are decoded by
the program, which hands the library the decoded values.
