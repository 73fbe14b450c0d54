# enft

A non-fungible token contract as a verified state machine. The contract's
storage is the struct `ENonFungibleTokens`; each endpoint is a method that
takes the call's context (caller, block time, payment) and either succeeds,
changing the storage and queuing the payments it makes in `outbox`, or fails
with an `NftError` and leaves the storage as it was.

Every method's contract states its result and the new storage through a spec
function over the model `NftState` (its view). Properties relating several
calls are proved in `src/laws.rs`.

Layout of `src/`:

- `state.rs` — the storage, its model, errors, payments, call context;
- `registry.rs` — reading and writing the storage lists; the address, string
  and money registries;
- `minting.rs` — `init`, `mint`, `clone`, `update`, `setstate`;
- `ownership.rs` — approvals, `transfer`, `burn`, payments;
- `market.rs` — `buy` and what it checks;
- `secrets.rs` — `answer`, `open`, `get_votes`;
- `dealers.rs` — the dealers' endpoints;
- `views.rs` — the read-only views and the token listing;
- `token.rs`, `dealer.rs`, `advice.rs`, `address.rs` — the stored types;
- `adder.rs` — a one-counter contract;
- `bytes.rs`, `words.rs`, `search.rs` — encodings, fixed strings, searches;
- `laws.rs` — the proved properties.

`app/` holds the deployment glue for the `elrond_wasm` framework (storage
mappers, payments, the ABI printer).
