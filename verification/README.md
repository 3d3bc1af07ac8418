# sp1-helios-script

The Nori bridge head follows the finality updates of a beacon chain and proves
each step with an SP1 light-client program. This crate holds the verified part:

- `src/proof_outputs.rs`: decoding of the program's ABI-encoded public values,
  with big-endian 256-bit integers held as limbs;
- `src/nori_bridge_head.rs`: the head's state, its start from a checkpoint or
  a cold start, the decisions taken on each update, and the checkpoint it saves;
- `src/event_dispatcher.rs`: an ordered listener registry and the rule that
  combines the outcomes of one round of notifications.

`app/` holds the programs around it: environment, files, the beacon client,
the prover, and the asynchronous listeners.
