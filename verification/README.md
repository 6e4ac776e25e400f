# oh_ben_claw

The decision core of the Oh-Ben-Claw agent runtime, verified with Verus.

- `src/` is the library. Every function in it carries a `requires`/`ensures`
  contract that Verus proves: the skill forge (manifests, placeholder
  substitution, install policy, staged rollout, synthesis, generalization,
  the self-improvement and description-evolution passes), the communication
  spine (topics, framing, peer registry, LoRa gateway lines, mesh
  supervision), and the built-in tools (request checking, result wording,
  parameter schemas, the browser session, the memory store). Calls into
  outside crates (hashing, hex, base64, UUIDs, JSON printing and parsing,
  URL parsing) sit behind small trusted wrappers whose contracts name or
  state what the crate documents.
- `app/` is the unverified shell around it: files, processes, HTTP, MQTT,
  serial ports, sockets and the clock. It hands plain values to the library
  and carries out what the library decides; the multi-step passes are driven
  as state machines (`improve_step`, `evolve_step`) whose every decision is
  taken in `src/`.
- `tests/` run the library with the real outside crates linked.
