# FamTrust Vault

A mobile wallet for the `FamilyTrust` contract on Monad: deploy a trust with a
lock period, add beneficiaries with shares, and call every contract function
from its own screen.

- `src/` is the verified core, checked by Verus:
  - `text.rs`: trimming and decimal integers;
  - `functions.rs`: the catalogue of contract functions, their slugs,
    labels and input fields, and the sections of the functions panel;
  - `eth.rs`: 256-bit integers, addresses, private keys, ether amounts and
    transaction hashes, parsed and formatted through `alloy`;
  - `calls.rs`: which contract call a function makes with which arguments,
    and how results and failures are shown;
  - `wallet.rs`: the store of imported accounts, ordered by address text;
  - `pages.rs`: lock periods, preparing calls and deployments, screen states.
- `app/` is the Dioxus application around it: screens, routing, the key file
  on Android and the network calls.
- `tests/` runs the library on concrete values.
