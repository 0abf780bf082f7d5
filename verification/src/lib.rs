//! Session lifecycle and move-relay core for a two-player game server.
//!
//! A game session moves through `Waiting -> InProgress -> Completed`; the
//! in-process session store is the single serialization point for session
//! mutations, and the relay hub forwards move payloads between the two
//! participants of a session in FIFO order.

pub mod ai;
pub mod auth;
pub mod game;
pub mod protocol;
pub mod relay;
pub mod session;
pub mod store;
pub mod user;

pub use session::GameSession;
pub use session::GameStatus;
pub use session::SessionView;
pub use session::StoreError;
