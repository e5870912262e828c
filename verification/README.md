# contracts

The logic of a set of small token contracts, verified with Verus:

- `token`: a token ledger (mint, transfer, balance), with the total supply
  kept by transfers between distinct accounts;
- `shared_account`: accounts that several tenants share, holding one token
  each (open, deposit, withdraw, balance, tenants);
- `proxy`: the address that a proxy forwards unknown calls to;
- `greeting`: the greeting every contract answers;
- `custody`: laws that tie the shared accounts to the token ledger: what the
  shared-account contract holds of a token equals the sum of its accounts'
  balances in it, and it stays solvent (balances non-negative, their sum at
  most what it holds);
- `str_map`, `sums`, `address`, `error`: the maps, sums, addresses and errors
  that the above are stated over.

Calls to the host (storage, other contracts, fresh ids) are not made by the
library: its procedures take what those calls returned and hand back the
transfer to make. `app/` holds the glue that runs the contracts on the host.
