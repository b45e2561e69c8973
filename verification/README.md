# ore_pool

A mining pool server for ORE. Clients connect by websocket, get a stretch of nonces to try on the
current challenge, and send back the best solution that they find. When the time has come, the pool
submits the best one of all to the chain, in a bundle that tips the block builder.

`src/` is the verified library:

- `wire`: the messages of the clients and what becomes of them
- `registry`: who is connected and who waits for work
- `dispatch`: stretches of nonces and the message that hands them out
- `solution`: judging solutions and keeping the best one
- `handler`: what the messages of the clients change
- `fee`, `rounding`: the tip, on integers; `tests/fee.rs` shows by comparison that floating point
  arithmetic comes to the same
- `bus`, `instruction`: the bus and the instructions of a submission
- `ore_utils`: the instructions and accounts of the ORE program; `steel`, whose trait reads an account
  from its bytes, is a dependency for the accounts alone
- `jito`: the calls of the block builder
- `startup`, `submit`: what the server does next, as state machines
- `proof_account`, `bytes`, `chance`: the proof account, little-endian numbers, random choice

`app/` is the server around it: the sockets, the chain and the clock. `tests/` runs the library on
given values.
