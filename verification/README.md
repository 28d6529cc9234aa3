# kreivo

The verified core of the Kreivo / Virto parachain node and pallets, written
in Verus.

- `src/command.rs`: how the node resolves a chain spec id to a runtime and a
  chain spec, which native runtime serves it, which benchmark and
  try-runtime commands a runtime supports, and the relay chain command line
  defaults.
- `src/payments/`: the escrow payments pallet. `fees.rs` aggregates fee
  lists per recipient (in an ordered map; `ordered.rs` holds the ordering
  facts it rests on); `pallet.rs` holds `pay`, `release` and `cancel` and
  the asset operations each needs; `laws.rs` proves what holds across the
  calls (reserving then cancelling leaves every balance as it was, settling
  moves exactly the amount and the fees, a created payment is released once
  and leaves no record, a second pay is refused while one is active, failed
  calls change nothing). `ledger.rs` models what the operations do to the
  balances and which operations undo a run that failed part way.
  Fee sums per recipient wrap at the balance type's limit, as the runtime
  does in its release build.
- `src/communities/`: community records, governance strategies and the
  registry (`do_register_community`, `do_set_metadata`).
- `src/liquidity_provider.rs`: the attestation and pair-price decisions of the
  liquidity provider pallet.
- `src/weights.rs`: the timestamp pallet's weights on the Kreivo runtime.
- `src/store.rs`: the keyed store that holds the pallets' storage maps.
- `src/arith.rs`: the calls into `sp_arithmetic`.

The calls of the pallets decide which asset operations they need; whoever
drives them runs those operations against the asset layer and hands the
outcome back, and the call then commits its change or fails without one.

`app/main.rs` resolves a chain spec id given on the command line, reading
the chain spec file when the id is a path.
