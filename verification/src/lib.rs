//! The logic of a metanode: a node that orders transactions by consensus and
//! hands them to a separate executor.
//!
//! What the node decides is here. Where it has to wait for someone else, the
//! decision is a state machine: it names the next action, and is told by an
//! event what came of it. Proof functions whose names begin with `law_` state
//! what holds across several functions.
pub mod crypto;
pub mod index_map;
pub mod node;
pub mod order;
pub mod rpc;
pub mod seqs;
pub mod sui_epoch_transition;
pub mod text;
pub mod transaction;
pub mod tx_hash;
pub mod tx_socket_server;
pub mod wire;
