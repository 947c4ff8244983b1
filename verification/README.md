# lighthouse

Parts of an Ethereum consensus client, written in Verus and proved against
their contracts.

## Layout

- `src/` — the verified library.
  - `spec`, `errors`, `beacon_state`, `operations`: the chain constants, the
    error types, the beacon state and the block operations, each with a view
    into mathematical values and a well-formedness predicate.
  - `churn`, `common`, `verify_operations`, `process_operations`, `deposits`,
    `attester_slashing`, `attestations`, `sync_committee`, `block`: block
    processing, each function stated exactly over spec functions of the state
    it reads and the state it leaves.
  - `upgrade`, `store`: the Fulu upgrade and the storage of full states.
  - `signing`: hashing, merkle roots and BLS signatures, each outside call
    behind a small trusted wrapper; `enr` holds one more such wrapper, the
    SSZ encoding of the fork id's epoch.
  - `sync`: the decisions of the sync manager, as functions from state and
    event to next state and actions.
  - `enr`, `lighthouse`, `health`, `handlers`: the local node record, eth1
    and database information, health gauges, and the test-vector handlers.
  - `laws`: properties that span several operations, proved over the same
    spec functions.
- `tests/` — tests of the library on concrete values.
- `app/` — ordinary Rust around the library: files, configuration, the sync
  loop that performs the actions the library decides, and serialisation.
