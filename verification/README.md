# ario_gar

The Gateway Address Registry of the AR.IO network: gateways join with an operator
stake, take delegated stake, are weighed, observed and paid epoch by epoch, and leave
again through time-locked vaults. The rules are a library verified with Verus; a thin
program around it runs them on Solana.

## Layout

- `src/` — the library. Every function in it is verified against its contract.
  - `state/` — the accounts, their constants, and the calculations that belong to
    them: weights, reward rates, settling a delegate's rewards, the epoch's counters.
  - `instructions/` — one function per instruction. It takes the accounts that the
    instruction names by value, and returns them as they are to be written back, with
    the token transfers to make and the event to emit. A refused instruction returns
    its refusal and nothing to write. `places.rs` says which slots of the registry
    the gateways of an epoch stand in: those that joined by its start.
  - `migration.rs`, `schema_migration.rs` — bringing accounts in, and bringing
    accounts to the current layout.
  - `addresses.rs`, `pubkey.rs` — program-derived addresses and digests.
  - `event_log.rs` — finding events in the log of a transaction.
- `tests/` — the library from outside, on concrete values.
- `app/` — the program: accounts in their on-chain encoding, the instructions as the
  runtime calls them, transfers, rent, and reading events into their types.

## How to read the contracts

For most instructions a spec function `*_refusal` gives the first thing that is wrong,
in the order of the checks, and `None` where nothing is. The instruction succeeds
exactly then. Another spec function gives the accounts that follow. Instructions that
go through a list of accounts are specified step by step in the same manner.

A function whose name ends in `_at` or `_with` takes an address or a digest as an
argument; the function without the ending derives it.

Public proof functions state what holds across calls: that stake is conserved on the
way out, that a split hands out the whole reward, that credits are covered by the
transfer, that delegates gain no more together than was distributed, that the supply
counters follow a payment out of several sources, that cancelling a withdrawal undoes
it, that nothing is tallied or paid twice, and so on. They stand in the module that
they are about.

## What is trusted

The digest (`solana_program::hash::hash`), the derivation of program addresses
(`Pubkey::try_find_program_address`) and base64 decoding are named, not described:
the contracts speak of their results. `str::trim` and `str::strip_prefix` are
described. Each stands behind one small function with a doc comment that says what is
believed of it.
