# astera_contracts

Verified state machines of the Astera invoice-financing protocol contracts,
written in Verus.

- `src/` — the library. Each contract is a plain value holding what the
  contract keeps in storage; its entry points are methods from the state, the
  caller, the ledger time and the outside answers they need to the next state
  and the outside work the host must do.
  - `access_control.rs` — role-based M-of-N multisig: propose, approve,
    revoke, reject, execute; self-management of roles and the routing of
    every other action to a target contract's `*_via_ac` entry point.
  - `governance.rs` — token-weighted proposals with per-category quorum,
    pass threshold, timelock and expiry, snapshot supply at creation.
  - `referral.rs` — referrer registration without cycles, activation counted
    once, rewards within a per-token lifetime cap, a bounded sorted
    leaderboard.
  - `auction.rs` — uniform-price clearing of invoice bids ranked by a
    credit-weighted score, and Dutch sales of seized collateral.
  - `arbitration.rs` — staked jurors, committees drawn from the host's
    random shuffle of the eligible pool,
    commit-reveal voting checked by SHA-256, settlement that slashes and
    redistributes stake without creating any.
  - `calls.rs` — a cross-contract call as plain values (target, entry
    point, arguments in order), which governance and access control return
    for the host to make.
  - `ranking.rs`, `assoc.rs`, `arith.rs` — a stable ranking, association
    lists used as maps, and saturating arithmetic.
- `tests/` — scenarios run against the compiled library.
- `app/` — host glue over `soroban-sdk`: account numbering, token
  transfers, the ledger's random shuffle, making the cross-contract calls
  the library returns, and authorisation.
