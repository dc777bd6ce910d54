# nft-candy-machine-v2

A candy machine is a Solana program that sells the items of an NFT collection one by one. This
crate holds its rules as a library whose functions state what they do in `requires` and
`ensures` clauses that Verus proves, and the on-chain program around them.

- `src/state.rs`, `src/layout.rs`, `src/codec.rs`: what a candy machine is, and the bytes of the
  account that it is kept in.
- `src/config_lines.rs`: filling in the config lines of the items and taking them out again.
- `src/accounts.rs`, `src/utils.rs`: the accounts of each instruction and the checks on them.
- `src/manage.rs`: setting up a machine, changing it, and withdrawing its funds.
- `src/mint.rs`: the sale of an item. A sale goes through stages; each stage decides what
  another program is asked to do next.
- `src/instruction.rs`: the instructions for other programs.
- `src/laws.rs`, `src/sale_laws.rs`, `src/state_laws.rs`: what holds of the machine as a whole,
  such as that a config line is read back as it was filled in, that every item is sold once, and
  that the stored bytes determine the machine.
- `app/`: the program itself. It reads accounts, lets the library decide, and makes the calls
  that the library asks for.
- `tests/`: the library on concrete values, next to the crates whose calls it makes.

## The account

| bytes | content |
| --- | --- |
| 681 | discriminator and encoded state |
| 4 | number of config lines that are filled in |
| 240 for each item | config lines |
| 4 | number of bytes of the bit mask |
| one bit for each item, rounded up to bytes | which lines have been filled in |

A machine with a hidden setting has no config lines: all its items have one name with a number
behind it.
