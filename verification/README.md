# ore_pool

The core of a mining pool for the ORE proof-of-work token, written in Verus.

Members mine drillx solutions for the pool's current challenge and send them
over a websocket; the operator keeps the best one, submits it on chain when
the challenge's time runs out, and announces the next challenge.

- `src/` — the verified library: instruction encodings (`instruction`), the
  pool account (`state`), the messages and the websocket address (`types`), the drillx interface
  (`drill`), the operator's reads of chain accounts and its deadlines
  (`operator`), the aggregator's decisions (`aggregator`), the member's
  mining step (`miner`) and the check of attribution transactions (`validate`).
- `tests/` — tests of the library on concrete values.
- `app/` — the server and the miner: RPC, websockets, tasks and JSON.
