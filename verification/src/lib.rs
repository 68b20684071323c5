//! Session registry and message-relay core of a small multiplayer
//! session server.
//!
//! Clients connect over a newline-framed text link, identify themselves
//! through a short handshake, and exchange vehicle/chat/ping updates that
//! the server fans out to the other connected clients.  This crate holds
//! the verified core: the player session registry, the handshake state
//! machine, and the dispatcher that turns each inbound line into registry
//! mutations and a delivery plan.  Reading and writing the sockets is left
//! to the embedding program, which executes each returned [`registry::Delivery`]
//! against the sink it stands for.

pub mod dispatch;
pub mod handshake;
pub mod json;
pub mod laws;
pub mod player;
pub mod registry;
pub mod text;
