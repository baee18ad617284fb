//! Core of a chat-bot notification engine: a daily recurring scheduler, a
//! periodic multi-source metric poller, and two fan-out dispatchers that send
//! messages to many recipients while isolating per-recipient failures.
pub mod broadcast;
pub mod commands;
pub mod fanout;
pub mod poller;
pub mod schedule;
pub mod store;
pub mod subscriber;
pub mod text;
