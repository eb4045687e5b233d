# metanode

The logic of a blockchain node that runs a DAG consensus beside a separate
executor process. The consensus orders transactions; the executor runs them and
is the authority on what was executed.

- `src/` is the library, written in Verus. Its functions are proved against
  their contracts; the proof functions whose names begin with `law_` state what
  holds of the library as a whole. What is believed without proof are the
  contracts of the calls into other crates and into std: the wrappers in
  `crypto` and `text` and the specification in `text`, each with a comment that
  says what it claims.
- `tests/` runs the library on concrete values.
- `app/` is ordinary Rust around the library: sockets, files, clocks and tasks.

Where the node has to wait for someone else, the library is a state machine: it
names the next action, and is told by an event what came of it. The loops that
perform the actions are in `app/`.

| Module | What it decides |
| --- | --- |
| `node::block_coordinator` | which of two streams a block is taken from, and when it leaves |
| `node::executor_client` | what is sent to the executor, in which order, and how its answers are read |
| `node::committee`, `node::committee_source` | who validates in an epoch, in an order that all nodes share |
| `node::consensus_node`, `node::node_start`, `node::startup`, `node::catchup` | how a node starts and when it joins |
| `node::epoch_monitor`, `node::transition` | when and how a node changes its epoch and its mode |
| `node::rust_sync_node`, `node::sync` | what a node that does not vote fetches, and how it hands it on |
| `node::queue`, `tx_hash`, `rpc`, `tx_socket_server` | what becomes of a transaction |
| `sui_epoch_transition` | epoch changes by proposal and vote |
| `wire`, `text`, `order`, `index_map`, `crypto`, `seqs` | byte formats, text, sorting, ordered maps, digests and keys |
