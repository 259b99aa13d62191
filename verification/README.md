# sorostream

Token streaming and vesting, verified with Verus. A sender locks an amount of
a token for a recipient; the amount vests linearly between a start and an end
time; the recipient claims what has vested; the sender may cancel, and then
the recipient gets what has vested and the sender the rest.

## Layout

- `src/` — the verified library.
  - `address.rs`: addresses, held as strkey bytes.
  - `error.rs`: `SoroError`, the ways an operation is refused.
  - `stream.rs`: `Stream`, its mathematical view and the vesting formula.
  - `effects.rs`: storage keys (`DataKey`), token transfers, events, and the
    `Effects` an operation leaves for its host: an ordered list of actions
    (the required signature, then the storage writes, then the transfers,
    then the event).
  - `contract.rs`: `SoroStream`, the contract state, with `initialize`,
    `create_stream`, `claim_stream`, `cancel_stream`, `get_stream` and
    `claimable_amount`, each specified against a transition function on
    `SoroStreamView`.
  - `laws.rs`: proved properties of the protocol (vesting monotonicity,
    initialize-once, successive ids, no double claim, cancel is final,
    settlement on cancel, token balance of the escrow, the order of an
    operation's actions, that each operation reads and writes only the
    storage entries it names, and consecutive ids and final cancels over
    any sequence of calls).
- `tests/` — tests of the library.
- `app/` — the Soroban contract: it reads storage and the ledger time,
  calls the library, then carries out the returned actions in order.
