# pallet-vcu

A verified model of a pallet that keeps Assets Generating VCU (Verified
Carbon Credits): the accounts authorized to manage them, the AGVs and their
shares, minting schedules, oracles and bundles.

- `src/types.rs`: the values the pallet stores, takes and reports.
- `src/store.rs`: the keyed store in which each storage item is held.
- `src/model.rs`: the storage as mathematical values, the invariants, and
  what each call does to the storage (`*_spec`).
- `src/pallet.rs`: the pallet's calls, each proved to do what its spec says
  and to keep the invariants.
- `src/distribution.rs`: how minted VCU are shared out among shareholders.
- `src/key_order.rs`: the order in which the storage walks shareholders
  (by their `Blake2_128Concat` keys).
- `src/laws.rs`: properties across calls.
- `app/`: the runtime side: origins, time, and the assets pallet calls that
  the verified calls grant (token creation, minting, burning).
