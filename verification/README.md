# investment_vault

A vault that takes deposits of USDC against shares (HBS), funds projects with them and redeems
the shares, with its behaviour stated in contracts and proved by Verus.

- `src/model.rs` is the mathematics: what a vault is, when a request is refused and why, and
  what the vault is after one that is not.
- `src/vault.rs` has the vault itself and how it is set up; `deposits.rs`, `withdrawals.rs`,
  `funding.rs`, `flash.rs`, `admin.rs` and `ownership.rs` carry out its requests and are proved
  against the model. Each hands back a receipt: the result, the payments to make and the events
  to announce. A refused request changes nothing.
- `src/laws.rs` holds what is true across requests: prices, locks, the queue, the money.
- `src/accounts.rs`, `table.rs` and `sums.rs` are the books below that.
- `src/host.rs` has the two calls into the host that the library trusts.
- `app/` puts the vault on a Soroban host.

Two things are given when a vault is set up: the cap on the share supply, which is above the
largest deposit and within reach of twenty of them, and the steps by which withdrawals are limited from half utilization on, with a
quarter of the liquid USDC at four fifths.
