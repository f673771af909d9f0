# cw_nibiru

Verified contract logic of a family of CosmWasm contracts for the Nibiru
chain: an airdrop, a token vesting contract with reward campaigns, a broker
bank and its staking variant, an operator-gated shifter, an NUSD valuator,
a lockup, an incentives program paying lockers per epoch, and two perp
binding contracts.

- `src/` holds the logic, written in Verus: each contract call is a function
  from the contract's state and the call's plain arguments to the new state
  and the reply, with a contract that states both. Laws that span calls are
  public proof functions beside the functions they relate.
- `tests/` runs the library on concrete scenarios.
- `app/` holds the CosmWasm entry points: storage, chain queries, message
  parsing and the conversion of replies into chain messages.

Data held as plain values:

- Sets and maps keyed by strings (`StringSet`, `StrMap` in `src/common.rs`)
  stand where the contracts keep a `BTreeSet<String>` or a string-keyed map.
  Their views are a `Set` and a `Map` of texts; where the order of keys
  matters (queries that page through accounts, sets reported in events) the
  order is the one of `BTreeSet`/`BTreeMap` over `String`, stated by
  `key_lt` in `src/key_order.rs`. std's ordered collections keyed by
  `String` would let little be proved of their contents here.
- What the contracts keep in chain storage (cw-storage-plus items, maps,
  indexed maps and deques) is read and written in `app/`; the library takes
  and returns the state as these plain values.
