//! A real-time state-synchronization core: an authoritative tic-tac-toe
//! state machine and the topic-based broadcast hub that fans its changes
//! out to subscribers.
pub mod game;
pub mod websocket;
