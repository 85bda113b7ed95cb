//! Remote-control protocol for a shared media player: OAuth2 authorization
//! code capture with CSRF verification, token exchange and identity
//! resolution, and a binary wire format that keeps a client's mirror of the
//! host's player state synchronized by full snapshots or field patches.
pub mod client;
pub mod codec;
pub mod host;
pub mod messages;
pub mod sync;
