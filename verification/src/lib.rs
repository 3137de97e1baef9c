//! Connection front-end of a game-server authentication gateway: the logon
//! handshake codec, the realm directory and the connection dispatch rules.

pub mod directory;
pub mod dispatch;
pub mod naming;
pub mod packets;
pub mod realm;
pub mod text;
pub mod wire;
