//! Verified core of the EthProofs ZisK client: the wire protocol between the
//! input generator server and the proving client, the prover command lines and
//! file layout, the reconnection and retry policies, and the EthProofs API
//! request layer.

pub mod api;
pub mod blocks;
pub mod path;
pub mod protocol;
pub mod prove;
pub mod reconnect;
pub mod server;
pub mod text;
