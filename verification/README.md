# Telos

An intent-based aggregator: payment intents are observed on one chain, priced from the trades of
another, simulated in an EVM, and hedged with an order at the venue where the simulation and the
price allow it.

`src/` is the library, verified with Verus:

| Module | What it holds |
| --- | --- |
| `listener` | log filters, what a log does, the stages of an intent |
| `settler` | price book, routes, two-leg simulation, the decision to hedge |
| `submitter` | signer, requests, broadcast and confirmation |
| `store` | event rows and the intents in flight |
| `precompile` | the intent digest and the precompile set |
| `calls` | calls on a fresh EVM that carries the intent digest |
| `node` | chain id and stateless calls over JSON-RPC |
| `config` | settings and modes |
| `abi`, `evm`, `keccak`, `primitives`, `text`, `types` | formats and types that these share |

What the library has from revm and alloy, it has through a few functions whose contracts are
believed rather than proved. Each is marked `external_body` or written as an
`assume_specification`, and its comment says what is claimed of which function.

`app/` is the program around the library: `telos` listens, `telos node` serves JSON-RPC. Settings
come from the environment:

| Variable | Meaning |
| --- | --- |
| `TELOS_WS_URL` | endpoint where a side has none of its own |
| `TELOS_TEMPO_WS_URL`, `TELOS_TEMPO_CONTRACT` | where intents are emitted |
| `TELOS_HL_WS_URL`, `TELOS_HL_CONTRACT` | where trades are emitted |
| `TELOS_HL_GATEWAY` | the venue of the hedge |
| `TELOS_TEMPO_FORK_URL` | state to simulate over; without it the state is empty and every leg fails |
| `TELOS_SUBMIT_RPC_URL`, `TELOS_SIGNER_KEY` | where hedges are sent, and by whom |
| `TELOS_BROADCAST` | `1` sends hedges, anything else only estimates their gas |
| `TELOS_DB_URL` | the event log, for instance `sqlite://./telos.db` |
| `TELOS_NODE_BIND`, `TELOS_NODE_CHAIN_ID` | the JSON-RPC node |
