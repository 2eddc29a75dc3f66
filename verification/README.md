# omniflix_channel

The logic of the OmniFlix channel contract (channels, collaborators and their
revenue shares, followers, reserved usernames, published assets, flags and
playlists) and of the earlier channel registry contract, written in Verus with
contracts that state what every handler answers and how it changes the state.

- `src/` – the verified library. `contract.rs` holds the channel contract's
  handlers over `ChannelContract`; `channel_manager/`, `asset_manager/` hold the
  bookkeeping they use; `bank.rs` payments and the sharing of tips; `random.rs`
  the drawing of ids; `string_validation.rs` the checks of names, descriptions
  and links; `registry/` the channel registry contract. Outside facts (whether
  the contract is paused, who holds an ONFT, whether an address is valid, the
  chain's collection creation fee) are arguments of the handlers.
- `tests/` – the tests of the library.
- `app/` – the CosmWasm entry points: they read the state and the chain, call
  the handlers and store and send what these answer.
