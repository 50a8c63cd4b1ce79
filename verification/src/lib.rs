//! Verified core of the `eth_getBlockReceiptsTrace` extension: hexadecimal
//! rendering, block reward traces, transaction authentication and the
//! request state machine that the RPC server drives.

pub mod hex;
pub mod rewards;
pub mod signer;
pub mod error;
pub mod enrich;
pub mod session;
pub mod ext;
