# parameters_contract

The governance logic of the StepFi protocol-parameters contract, verified
with Verus: the admin, the protocol parameters, a two-step multisig
committee set-up, proposals with an eligible-signer snapshot, approvals,
elevated quorum for committee changes, invalidation of rival committee
changes, and the liquidity-pool value types.

- `src/` — the verified library. `contract.rs` holds the state and the
  entry points, each refusing a call with an error and no change, or
  returning the new state's effects (events, code upgrade) for the host;
  `model.rs` states the behaviour over plain values; `laws.rs` proves the
  properties that span calls; `pool_types.rs` holds the pool's value types.
- `app/` — the Soroban contract: storage, authorization, events and code
  upgrades around the library.
- `tests/` — the contract's scenarios and further behaviour tests.
