# bot

A swap bot for liquidity-book (DLMM) pools, with its logic verified by Verus.

- `src/` is the verified library:
  - `decimal`: decimals as mantissa and scale, and the `rust_decimal` operations used;
  - `dlmm`: constants and bin-array arithmetic of the `lb_clmm` program crate;
  - `price`: the bin id of a price, Q64.64 prices, token and lamport prices;
  - `accounts`: addresses and instructions as plain values, and the Solana, SPL
    and `lb_clmm` functions that derive addresses and build instructions;
  - `swap`: the accounts and arguments of one swap;
  - `plan`: the bin array to start from and the three swaps sent from it;
  - `sender`: blockhash tracking, the transactions of each round, tip bundles.
- `app/` is the program: it reads the pool and the blockhash over RPC, signs,
  and sends, asking the library what to send.
- `tests/` runs the library against the real outside crates.
