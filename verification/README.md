# mecha_launcher

The decision logic of a Minecraft launcher, written in Verus and proved
against its contracts.

- `src/` is the verified library: manifest merging, the per-step check of
  an inheritance chain (cycle detection; the walk itself reads files in
  `app/`), rule evaluation, launch-argument rendering, classpath and native selection,
  memory sizing, Java selection, install planning (vanilla, Fabric, OptiFine,
  Redux packs, including the JSON edits of version and profile files),
  dependency checks, and the launch tracker. Calls into `regex`, `md-5`,
  `sha1` and `serde_json` stand behind small trusted wrappers whose contracts
  name their results. Host differences (Windows or not) are given as inputs.
- `app/` is the unverified shell around it: file and network I/O, process
  spawning, reading manifests into library types with serde, archive
  extraction, and the command handlers that feed the library plain values and act on its answers.
- `tests/` runs the library on concrete inputs.
