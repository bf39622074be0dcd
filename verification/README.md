# urd

A configuration and secrets manager: a store of items, each with catalog
metadata (description, sensitivity, origin, environments, tags) and one value
per environment; values of sensitive items are encrypted with AES-256-GCM.
`.env` files are assembled from the store through topologies that map each
component to an environment, with glob overrides.

The library in `src/` is written in Verus and verified:

- `store`, `smap`, `text`: the store and its sorted maps, text utilities.
- `crypto`: the `ENC[aes:<level>,<base64>]` envelope, keys, encryption and
  decryption over the `aes-gcm` and `base64` crates.
- `glob`, `template`, `filters`, `topology`, `assemble`: override patterns,
  `{{ item.id | filter }}` templates, manifests, topologies and assembly.
- `commands`, `catalog`, `import`, `init`, `paths`: what each command computes
  on a loaded store.
- `tui`: the interactive browser's state machine, key handling and the lines
  each panel shows.

`app/` is the `urd` program around it: argument parsing, files, prompts and the
terminal. `tests/` exercises the library.
