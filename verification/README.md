# frame_logic

Verified logic of a few FRAME pallets and of the pallet-revive Ethereum RPC
server, written in Verus.

- `precompiles`: address matchers of precompiled contracts, collision checks
  and dispatch within a precompile set.
- `bounties`, `bounty_laws`: the bounties pallet as a state machine over its
  storage; each call returns the currency operations and events the runtime
  performs.
- `key_map`, `block_info_provider`, `block_cache`, `cache_laws`: bounded caches
  of the latest blocks, with the receipts and signed transactions they hold.
- `receipt_provider`: gas used, logs and contract creation of Ethereum receipts.
- `weight`, `nis_weights`, `system_weights`, `hrmp_weights`: benchmarked weight
  formulas with saturating arithmetic.

`app/` holds the asynchronous providers that put a chain client behind the
caches and the runtime glue that dispatches the bounties calls: origin
checks, the chain state each call reads, and the currency operations it
hands back.
